//! How profiles are shown, found and changed.

use crate::controllers::models::{UpdateUserRequestBody, UserNameSearchQuery, UserResponse};
use crate::controllers::users_controller::{
    searched, shows_profile, shows_profiles, user_of, GetUser, SearchUsers, UpdateMe,
};
use crate::entities::{Id, UserRow};
use crate::laws::reading::{lists_alike, reading_changes_nothing};
use crate::machine::{Machine, Step};
use crate::model::{
    begun, exchange, finds, lists, runs, runs_keep, through, Running, Session, Tables,
};
use crate::refusal::Refusal;
use crate::store::{Cond, Reply, UserTest};
use crate::text::blank;
use vstd::prelude::*;

verus! {

/// A user who exists is found.
proof fn user_found(t: Tables, c: Cond<UserTest>, found: Option<UserRow>, id: Id)
    requires
        t.keyed(),
        c.means(user_of(id)),
        finds(t.users, through(c), found),
    ensures
        found is Some <==> t.users.dom().contains(id),
        found matches Some(user) ==> user == t.users[id],
{
    match found {
        Some(user) => {
            assert(c.admits(user));
        },
        None => {
            if t.users.dom().contains(id) {
                assert(c.admits(t.users[id]));
            }
        },
    }
}

/// A profile is shown as it is stored, if there is one.
pub proof fn get_user_runs(
    n: nat,
    t: Tables,
    id: Id,
    first: Step<GetUser, UserResponse>,
    last: Running<GetUser>,
)
    requires
        t.keyed(),
        first.waits_at(GetUser::Me { id }) || first.waits_at(GetUser::Any { id }),
        first matches Step::Ask(m, request) && m.asking(request),
        runs(false, n, begun(first, t), last),
    ensures
        last.step matches Step::Done(Ok(shown)) ==> t.users.dom().contains(id) && shows_profile(
            t.users[id],
            shown,
        ),
        last.step matches Step::Done(Err(why)) ==> !t.users.dom().contains(id) && why
            == if first->Ask_0 is Me {
            Refusal::OwnProfileMissing
        } else {
            Refusal::ProfileMissing
        },
        last.session.stored == t,
{
    let kept = |r: Running<GetUser>|
        {
            &&& r.session == Session::to(t)
            &&& match r.step {
                Step::Ask(m, request) => m.asking(request) && m == first->Ask_0,
                Step::Done(Ok(shown)) => t.users.dom().contains(id) && shows_profile(
                    t.users[id],
                    shown,
                ),
                Step::Done(Err(why)) => !t.users.dom().contains(id) && why
                    == if first->Ask_0 is Me {
                    Refusal::OwnProfileMissing
                } else {
                    Refusal::ProfileMissing
                },
            }
        };
    assert forall|c: Running<GetUser>, reply: Reply, d: Running<GetUser>|
        kept(c) && #[trigger] exchange(false, c, reply, d) implies kept(d) by {
        let request = c.step->Ask_1;
        reading_changes_nothing(c.session, request, reply, d.session);
        user_found(t, request->OneUser_0, reply->User_0, id);
    }
    runs_keep(false, n, begun(first, t), last, kept);
}

/// A user with what is given written, and the rest as it was.
pub open spec fn updated_user(user: UserRow, payload: UpdateUserRequestBody) -> UserRow {
    UserRow {
        username: match payload.username {
            Some(username) => username,
            None => user.username,
        },
        avatar_url: match payload.avatar_url {
            Some(avatar_url) => Some(avatar_url),
            None => user.avatar_url,
        },
        bio: match payload.bio {
            Some(bio) => Some(bio),
            None => user.bio,
        },
        ..user
    }
}

/// The tables with a user's profile updated. Nothing else is different.
pub open spec fn with_profile(t: Tables, me: Id, payload: UpdateUserRequestBody) -> Tables {
    Tables { users: t.users.insert(me, updated_user(t.users[me], payload)), ..t }
}

/// Updating a profile, whatever fails: a reply shows it as it is then stored,
/// with what is given written and the rest as it was; a refusal leaves the
/// tables as they were. Without a failure only a missing profile is refused.
pub proof fn update_me_runs(
    faults: bool,
    n: nat,
    t: Tables,
    me: Id,
    payload: UpdateUserRequestBody,
    first: Step<UpdateMe, UserResponse>,
    last: Running<UpdateMe>,
)
    requires
        t.keyed(),
        first.waits_at(UpdateMe::Find { me, payload }),
        first matches Step::Ask(m, request) && m.asking(request),
        runs(faults, n, begun(first, t), last),
    ensures
        last.step matches Step::Done(Ok(shown)) ==> {
            &&& t.users.dom().contains(me)
            &&& last.session.stored == with_profile(t, me, payload)
            &&& shows_profile(updated_user(t.users[me], payload), shown)
        },
        last.step matches Step::Done(Err(why)) ==> {
            &&& last.session.stored == t
            &&& !faults ==> why is OwnProfileMissing && !t.users.dom().contains(me)
        },
{
    let kept = |r: Running<UpdateMe>|
        match r.step {
            Step::Ask(m, request) => {
                &&& m.asking(request)
                &&& r.session == Session::to(t)
                &&& match m {
                    UpdateMe::Find { me: a, payload: p } => a == me && p == payload,
                    UpdateMe::Update { id, wanted } => id == me && wanted@ == payload
                        && t.users.dom().contains(me),
                }
            },
            Step::Done(Ok(shown)) => {
                &&& t.users.dom().contains(me)
                &&& r.session.stored == with_profile(t, me, payload)
                &&& shows_profile(updated_user(t.users[me], payload), shown)
            },
            Step::Done(Err(why)) => {
                &&& r.session.stored == t
                &&& !faults ==> why is OwnProfileMissing && !t.users.dom().contains(me)
            },
        };
    assert forall|c: Running<UpdateMe>, reply: Reply, d: Running<UpdateMe>|
        kept(c) && #[trigger] exchange(faults, c, reply, d) implies kept(d) by {
        match c.step->Ask_0 {
            UpdateMe::Find { .. } => {
                if reply is User {
                    user_found(t, c.step->Ask_1->OneUser_0, reply->User_0, me);
                }
            },
            UpdateMe::Update { .. } => {
                if reply is StoredUser {
                    let changes = c.step->Ask_1->UpdateUser_1;
                    assert(changes.made_to(t.users[me]) == updated_user(t.users[me], payload));
                }
            },
        }
    }
    runs_keep(faults, n, begun(first, t), last, kept);
}

/// `shown` shows the profiles of the users that pass, each once.
pub open spec fn shows_all_profiles(
    t: Tables,
    passes: spec_fn(UserRow) -> bool,
    shown: Seq<UserResponse>,
) -> bool {
    exists|users: Seq<UserRow>|
        lists(t.users, passes, users) && #[trigger] shows_profiles(users, shown)
}

/// A search shows the users whose names begin with the text, and no others. It
/// is refused for a text that says nothing, and leaves the tables as they are.
pub proof fn search_users_runs(
    n: nat,
    t: Tables,
    query: UserNameSearchQuery,
    first: Step<SearchUsers, Vec<UserResponse>>,
    last: Running<SearchUsers>,
)
    requires
        if blank(searched(query)) {
            first.refused(Refusal::SearchTextMissing)
        } else {
            first.waits_at(SearchUsers::Users { wanted: Ghost(searched(query)) })
        },
        first matches Step::Ask(m, request) ==> m.asking(request),
        runs(false, n, begun(first, t), last),
    ensures
        last.step matches Step::Done(Ok(shown)) ==> {
            &&& !blank(searched(query))
            &&& shows_all_profiles(
                t,
                |user: UserRow| searched(query).is_prefix_of(user.username@),
                shown@,
            )
        },
        last.step matches Step::Done(Err(why)) ==> blank(searched(query)) && why
            is SearchTextMissing,
        last.session.stored == t,
{
    let text = searched(query);
    let begins = |user: UserRow| text.is_prefix_of(user.username@);
    let kept = |r: Running<SearchUsers>|
        {
            &&& r.session == Session::to(t)
            &&& match r.step {
                Step::Ask(m, request) => m.asking(request) && m == (SearchUsers::Users {
                    wanted: Ghost(text),
                }) && !blank(text),
                Step::Done(Ok(shown)) => !blank(text) && shows_all_profiles(t, begins, shown@),
                Step::Done(Err(why)) => blank(text) && why is SearchTextMissing,
            }
        };
    assert forall|c: Running<SearchUsers>, reply: Reply, d: Running<SearchUsers>|
        kept(c) && #[trigger] exchange(false, c, reply, d) implies kept(d) by {
        let request = c.step->Ask_1;
        reading_changes_nothing(c.session, request, reply, d.session);
        let users = reply->Users_0@;
        lists_alike(t.users, through(request->AllUsers_0), begins, users);
        assert(shows_profiles(users, d.step->Done_0->Ok_0@));
    }
    runs_keep(false, n, begun(first, t), last, kept);
}

} // verus!
