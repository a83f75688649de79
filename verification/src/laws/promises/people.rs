//! What profiles and lists of people say, and how they are changed.

use crate::controllers::friendship_controller::{
    accept_friend_request, friend_request, get_friends, get_incoming, get_outgoing,
    reject_friend_request, remove_friend, shows_user, shows_users, AcceptFriendRequest, Circle,
    FriendRequest, ListPeople, RejectFriendRequest, RemoveFriend,
};
use crate::controllers::models::{
    AuthUser, FriendIdBody, UpdateUserRequestBody, UserDTO, UserNameSearchQuery, UserResponse,
};
use crate::controllers::users_controller::{
    get_me, get_user_by_id, search_users, searched, shows_profile, shows_profiles, update_me,
    GetUser, SearchUsers, UpdateMe,
};
use crate::entities::{FriendshipRow, Id, UserRow};
use crate::laws::befriending::{
    accept_friend_request_runs, friend_request_runs, in_circle, is_offer, people_are_listed,
    reject_friend_request_runs, remove_friend_runs, shows_all_users, what_a_circle_holds,
    with_friendship,
};
use crate::laws::profiles::{get_user_runs, search_users_runs, update_me_runs};
use crate::machine::{Machine, Step};
use crate::model::{begun, gains, lists, runs, Running, Tables};
use crate::refusal::StatusCode;
use crate::text::white_space;
use vstd::prelude::*;

verus! {

/// A user's own profile has the fields of the user's row.
pub proof fn own_profile_is_the_row(
    n: nat,
    t: Tables,
    auth: AuthUser,
    first: Step<GetUser, UserResponse>,
    last: Running<GetUser>,
)
    requires
        t.keyed(),
        call_ensures(get_me, (auth,), first),
        runs(false, n, begun(first, t), last),
        last.step is Done,
    ensures
        last.session.stored == t,
        match last.step {
            Step::Done(Ok(shown)) => {
                &&& t.users.dom().contains(auth.user_id)
                &&& shown.id == auth.user_id
                &&& shown.username == t.users[auth.user_id].username
                &&& shown.avatar_url == t.users[auth.user_id].avatar_url
                &&& shown.bio == t.users[auth.user_id].bio
            },
            Step::Done(Err(why)) => !t.users.dom().contains(auth.user_id) && why
                is OwnProfileMissing,
            _ => false,
        },
{
    get_user_runs(n, t, auth.user_id, first, last);
}

/// A profile has the fields of the row of the user who is asked for.
pub proof fn profile_is_the_row(
    n: nat,
    t: Tables,
    id: Id,
    first: Step<GetUser, UserResponse>,
    last: Running<GetUser>,
)
    requires
        t.keyed(),
        call_ensures(get_user_by_id, (id,), first),
        runs(false, n, begun(first, t), last),
        last.step is Done,
    ensures
        last.session.stored == t,
        match last.step {
            Step::Done(Ok(shown)) => {
                &&& t.users.dom().contains(id)
                &&& shown.id == id
                &&& shown.username == t.users[id].username
                &&& shown.avatar_url == t.users[id].avatar_url
                &&& shown.bio == t.users[id].bio
            },
            Step::Done(Err(why)) => !t.users.dom().contains(id) && why is ProfileMissing,
            _ => false,
        },
{
    get_user_runs(n, t, id, first, last);
}

/// Updating a profile writes every field that is given, keeps every field that is
/// not, touches no other user and no other table, and shows what is then stored.
/// If it is refused, nothing is different.
pub proof fn profile_update_writes_what_is_given(
    faults: bool,
    n: nat,
    t: Tables,
    auth: AuthUser,
    payload: UpdateUserRequestBody,
    first: Step<UpdateMe, UserResponse>,
    last: Running<UpdateMe>,
)
    requires
        t.keyed(),
        call_ensures(update_me, (auth, payload), first),
        runs(faults, n, begun(first, t), last),
        last.step is Done,
    ensures
        match last.step {
            Step::Done(Ok(shown)) => {
                let me = auth.user_id;
                let u = last.session.stored;
                &&& t.users.dom().contains(me)
                &&& u == (Tables { users: u.users, ..t })
                &&& u.users.dom() == t.users.dom()
                &&& forall|k: Id| #[trigger]
                    t.users.dom().contains(k) && k != me ==> u.users[k] == t.users[k]
                &&& u.users[me].id == me
                &&& payload.username matches Some(x) ==> u.users[me].username == x
                &&& payload.username is None ==> u.users[me].username == t.users[me].username
                &&& payload.avatar_url matches Some(x) ==> u.users[me].avatar_url == Some(x)
                &&& payload.avatar_url is None ==> u.users[me].avatar_url
                    == t.users[me].avatar_url
                &&& payload.bio matches Some(x) ==> u.users[me].bio == Some(x)
                &&& payload.bio is None ==> u.users[me].bio == t.users[me].bio
                &&& shown.id == me
                &&& shown.username == u.users[me].username
                &&& shown.avatar_url == u.users[me].avatar_url
                &&& shown.bio == u.users[me].bio
            },
            Step::Done(Err(why)) => {
                &&& last.session.stored == t
                &&& !faults ==> !t.users.dom().contains(auth.user_id) && why is OwnProfileMissing
            },
            _ => false,
        },
{
    update_me_runs(faults, n, t, auth.user_id, payload, first, last);
    if last.step->Done_0 is Ok {
        assert(last.session.stored.users.dom() =~= t.users.dom());
    }
}

/// A search shows exactly the users whose names begin with the text, each once
/// and with the fields of its row; a text of white space alone is refused.
pub proof fn search_finds_the_names_that_begin_so(
    n: nat,
    t: Tables,
    query: UserNameSearchQuery,
    text: Seq<char>,
    first: Step<SearchUsers, Vec<UserResponse>>,
    last: Running<SearchUsers>,
)
    requires
        t.keyed(),
        query.username matches Some(s) ==> text == s@,
        query.username is None ==> text.len() == 0,
        call_ensures(search_users, (query,), first),
        runs(false, n, begun(first, t), last),
        last.step is Done,
    ensures
        last.session.stored == t,
        match last.step {
            Step::Done(Ok(shown)) => {
                &&& exists|i: int| 0 <= i < text.len() && !white_space(#[trigger] text[i])
                &&& forall|i: int, j: int|
                    0 <= i < j < shown@.len() ==> (#[trigger] shown@[i]).id != (
                    #[trigger] shown@[j]).id
                &&& forall|i: int|
                    0 <= i < shown@.len() ==> {
                        &&& t.users.dom().contains((#[trigger] shown@[i]).id)
                        &&& shown@[i].username == t.users[shown@[i].id].username
                        &&& shown@[i].avatar_url == t.users[shown@[i].id].avatar_url
                        &&& shown@[i].bio == t.users[shown@[i].id].bio
                    }
                &&& forall|k: Id| #[trigger]
                    t.users.dom().contains(k) ==> ((exists|i: int|
                        0 <= i < shown@.len() && (#[trigger] shown@[i]).id == k) <==> text.len()
                        <= t.users[k].username@.len() && t.users[k].username@.subrange(
                        0,
                        text.len() as int,
                    ) == text)
            },
            Step::Done(Err(why)) => {
                &&& why is SearchTextMissing
                &&& forall|i: int| 0 <= i < text.len() ==> white_space(#[trigger] text[i])
            },
            _ => false,
        },
{
    search_users_runs(n, t, query, first, last);
    assert(searched(query) =~= text);
    if let Step::Done(Ok(shown)) = last.step {
        let p = |user: UserRow| text.is_prefix_of(user.username@);
        let users = choose|users: Seq<UserRow>|
            lists(t.users, p, users) && #[trigger] shows_profiles(users, shown@);
        assert(lists(t.users, p, users));
        assert forall|i: int| 0 <= i < shown@.len() implies {
            &&& (#[trigger] shown@[i]).id == users[i].id
            &&& t.users.dom().contains(shown@[i].id)
            &&& t.users[shown@[i].id] == users[i]
            &&& shown@[i].username == users[i].username
            &&& shown@[i].avatar_url == users[i].avatar_url
            &&& shown@[i].bio == users[i].bio
        } by {
            assert(shows_profile(users[i], shown@[i]));
            assert(t.users.dom().contains(users[i].id));
        }
        assert forall|i: int, j: int| 0 <= i < j < shown@.len() implies (#[trigger] shown@[i]).id
            != (#[trigger] shown@[j]).id by {
            assert(users[i].id != users[j].id);
        }
        assert forall|k: Id| #[trigger] t.users.dom().contains(k) implies ((exists|i: int|
            0 <= i < shown@.len() && (#[trigger] shown@[i]).id == k) <==> text.len()
            <= t.users[k].username@.len() && t.users[k].username@.subrange(0, text.len() as int)
            == text) by {
            if text.is_prefix_of(t.users[k].username@) {
                assert(p(t.users[k]));
                let i = choose|i: int| 0 <= i < users.len() && (#[trigger] users[i]) == t.users[k];
                assert(shown@[i].id == k);
            }
            if exists|i: int| 0 <= i < shown@.len() && (#[trigger] shown@[i]).id == k {
                let i = choose|i: int| 0 <= i < shown@.len() && (#[trigger] shown@[i]).id == k;
                assert(p(users[i]));
            }
        }
    }
}

/// What a list of users says, user by user.
proof fn users_shown(
    t: Tables,
    p: spec_fn(UserRow) -> bool,
    shown: Seq<UserDTO>,
)
    requires
        t.keyed(),
        shows_all_users(t, p, shown),
    ensures
        forall|i: int, j: int|
            0 <= i < j < shown.len() ==> (#[trigger] shown[i]).id != (#[trigger] shown[j]).id,
        forall|i: int|
            0 <= i < shown.len() ==> {
                &&& t.users.dom().contains((#[trigger] shown[i]).id)
                &&& shown[i].username == t.users[shown[i].id].username
                &&& shown[i].avatar_url == t.users[shown[i].id].avatar_url
                &&& shown[i].bio == t.users[shown[i].id].bio
                &&& p(t.users[shown[i].id])
            },
        forall|k: Id| #[trigger]
            t.users.dom().contains(k) && p(t.users[k]) ==> exists|i: int|
                0 <= i < shown.len() && (#[trigger] shown[i]).id == k,
{
    let users = choose|users: Seq<UserRow>|
        lists(t.users, p, users) && #[trigger] shows_users(users, shown);
    assert forall|i: int| 0 <= i < shown.len() implies {
        &&& (#[trigger] shown[i]).id == users[i].id
        &&& t.users.dom().contains(shown[i].id)
        &&& t.users[shown[i].id] == users[i]
        &&& shown[i].username == users[i].username
        &&& shown[i].avatar_url == users[i].avatar_url
        &&& shown[i].bio == users[i].bio
    } by {
        assert(shows_user(users[i], shown[i]));
        assert(t.users.dom().contains(users[i].id));
    }
    assert forall|i: int, j: int| 0 <= i < j < shown.len() implies (#[trigger] shown[i]).id != (
    #[trigger] shown[j]).id by {
        assert(users[i].id != users[j].id);
    }
    assert forall|k: Id| #[trigger] t.users.dom().contains(k) && p(t.users[k]) implies exists|
        i: int,
    | 0 <= i < shown.len() && (#[trigger] shown[i]).id == k by {
        let i = choose|i: int| 0 <= i < users.len() && (#[trigger] users[i]) == t.users[k];
        assert(shown[i].id == k);
    }
}

/// The list of friends holds exactly the users with whom there is an accepted
/// friendship, whoever offered it: each once, with the fields of its row.
pub proof fn friends_are_those_with_an_accepted_friendship(
    n: nat,
    t: Tables,
    auth: AuthUser,
    first: Step<ListPeople, Vec<UserDTO>>,
    last: Running<ListPeople>,
)
    requires
        t.keyed(),
        call_ensures(get_friends, (auth,), first),
        runs(false, n, begun(first, t), last),
        last.step is Done,
    ensures
        last.session.stored == t,
        last.step matches Step::Done(Ok(shown)) && {
            let me = auth.user_id;
            &&& forall|i: int, j: int|
                0 <= i < j < shown@.len() ==> (#[trigger] shown@[i]).id != (
                #[trigger] shown@[j]).id
            &&& forall|i: int|
                0 <= i < shown@.len() ==> {
                    &&& t.users.dom().contains((#[trigger] shown@[i]).id)
                    &&& shown@[i].username == t.users[shown@[i].id].username
                    &&& shown@[i].avatar_url == t.users[shown@[i].id].avatar_url
                    &&& shown@[i].bio == t.users[shown@[i].id].bio
                }
            &&& forall|id: Id| #[trigger]
                t.users.dom().contains(id) ==> ((exists|i: int|
                    0 <= i < shown@.len() && (#[trigger] shown@[i]).id == id) <==> (exists|k: Id|
                    #[trigger]
                    t.friendships.dom().contains(k) && t.friendships[k].status is Accepted && ((
                    t.friendships[k].user_id == me && t.friendships[k].friend_id == id) || (
                    t.friendships[k].user_id == id && t.friendships[k].friend_id == me))))
        },
{
    let me = auth.user_id;
    people_are_listed(n, t, me, Circle::Friends, first, last);
    let shown = last.step->Done_0->Ok_0@;
    users_shown(t, |user: UserRow| in_circle(t, Circle::Friends, me, user.id), shown);
    assert forall|id: Id| #[trigger] t.users.dom().contains(id) implies ((exists|i: int|
        0 <= i < shown.len() && (#[trigger] shown[i]).id == id) <==> (exists|k: Id| #[trigger]
        t.friendships.dom().contains(k) && t.friendships[k].status is Accepted && ((
        t.friendships[k].user_id == me && t.friendships[k].friend_id == id) || (
        t.friendships[k].user_id == id && t.friendships[k].friend_id == me)))) by {
        what_a_circle_holds(t, me, id);
        assert(in_circle(t, Circle::Friends, me, t.users[id].id) == in_circle(
            t,
            Circle::Friends,
            me,
            id,
        ));
    }
}

/// The list of incoming offers holds exactly the users who have offered
/// friendship and have no answer yet: each once, with the fields of its row.
pub proof fn incoming_are_those_who_offered(
    n: nat,
    t: Tables,
    auth: AuthUser,
    first: Step<ListPeople, Vec<UserDTO>>,
    last: Running<ListPeople>,
)
    requires
        t.keyed(),
        call_ensures(get_incoming, (auth,), first),
        runs(false, n, begun(first, t), last),
        last.step is Done,
    ensures
        last.session.stored == t,
        last.step matches Step::Done(Ok(shown)) && {
            let me = auth.user_id;
            &&& forall|i: int, j: int|
                0 <= i < j < shown@.len() ==> (#[trigger] shown@[i]).id != (
                #[trigger] shown@[j]).id
            &&& forall|i: int|
                0 <= i < shown@.len() ==> {
                    &&& t.users.dom().contains((#[trigger] shown@[i]).id)
                    &&& shown@[i].username == t.users[shown@[i].id].username
                    &&& shown@[i].avatar_url == t.users[shown@[i].id].avatar_url
                    &&& shown@[i].bio == t.users[shown@[i].id].bio
                }
            &&& forall|id: Id| #[trigger]
                t.users.dom().contains(id) ==> ((exists|i: int|
                    0 <= i < shown@.len() && (#[trigger] shown@[i]).id == id) <==> (exists|k: Id|
                    #[trigger]
                    t.friendships.dom().contains(k) && t.friendships[k].status is Pending
                        && t.friendships[k].user_id == id && t.friendships[k].friend_id == me))
        },
{
    let me = auth.user_id;
    people_are_listed(n, t, me, Circle::Incoming, first, last);
    let shown = last.step->Done_0->Ok_0@;
    users_shown(t, |user: UserRow| in_circle(t, Circle::Incoming, me, user.id), shown);
    assert forall|id: Id| #[trigger] t.users.dom().contains(id) implies ((exists|i: int|
        0 <= i < shown.len() && (#[trigger] shown[i]).id == id) <==> (exists|k: Id| #[trigger]
        t.friendships.dom().contains(k) && t.friendships[k].status is Pending
            && t.friendships[k].user_id == id && t.friendships[k].friend_id == me)) by {
        what_a_circle_holds(t, me, id);
        assert(in_circle(t, Circle::Incoming, me, t.users[id].id) == in_circle(
            t,
            Circle::Incoming,
            me,
            id,
        ));
    }
}

/// The list of outgoing offers holds exactly the users to whom friendship has been
/// offered and who have not answered: each once, with the fields of its row.
pub proof fn outgoing_are_those_offered_to(
    n: nat,
    t: Tables,
    auth: AuthUser,
    first: Step<ListPeople, Vec<UserDTO>>,
    last: Running<ListPeople>,
)
    requires
        t.keyed(),
        call_ensures(get_outgoing, (auth,), first),
        runs(false, n, begun(first, t), last),
        last.step is Done,
    ensures
        last.session.stored == t,
        last.step matches Step::Done(Ok(shown)) && {
            let me = auth.user_id;
            &&& forall|i: int, j: int|
                0 <= i < j < shown@.len() ==> (#[trigger] shown@[i]).id != (
                #[trigger] shown@[j]).id
            &&& forall|i: int|
                0 <= i < shown@.len() ==> {
                    &&& t.users.dom().contains((#[trigger] shown@[i]).id)
                    &&& shown@[i].username == t.users[shown@[i].id].username
                    &&& shown@[i].avatar_url == t.users[shown@[i].id].avatar_url
                    &&& shown@[i].bio == t.users[shown@[i].id].bio
                }
            &&& forall|id: Id| #[trigger]
                t.users.dom().contains(id) ==> ((exists|i: int|
                    0 <= i < shown@.len() && (#[trigger] shown@[i]).id == id) <==> (exists|k: Id|
                    #[trigger]
                    t.friendships.dom().contains(k) && t.friendships[k].status is Pending
                        && t.friendships[k].user_id == me && t.friendships[k].friend_id == id))
        },
{
    let me = auth.user_id;
    people_are_listed(n, t, me, Circle::Outgoing, first, last);
    let shown = last.step->Done_0->Ok_0@;
    users_shown(t, |user: UserRow| in_circle(t, Circle::Outgoing, me, user.id), shown);
    assert forall|id: Id| #[trigger] t.users.dom().contains(id) implies ((exists|i: int|
        0 <= i < shown.len() && (#[trigger] shown[i]).id == id) <==> (exists|k: Id| #[trigger]
        t.friendships.dom().contains(k) && t.friendships[k].status is Pending
            && t.friendships[k].user_id == me && t.friendships[k].friend_id == id)) by {
        what_a_circle_holds(t, me, id);
        assert(in_circle(t, Circle::Outgoing, me, t.users[id].id) == in_circle(
            t,
            Circle::Outgoing,
            me,
            id,
        ));
    }
}

/// Offering friendship adds one row, from the one who offers to the other and
/// waiting for an answer, and changes nothing else. An offer to oneself is refused.
pub proof fn offering_adds_one_waiting_row(
    faults: bool,
    n: nat,
    t: Tables,
    auth: AuthUser,
    body: FriendIdBody,
    first: Step<FriendRequest, StatusCode>,
    last: Running<FriendRequest>,
)
    requires
        call_ensures(friend_request, (auth, body), first),
        runs(faults, n, begun(first, t), last),
        last.step is Done,
    ensures
        match last.step {
            Step::Done(Ok(code)) => {
                let u = last.session.stored;
                &&& code is Created
                &&& body.friend_id != auth.user_id
                &&& u == (Tables { friendships: u.friendships, ..t })
                &&& exists|k: Id|
                    {
                        &&& !t.friendships.dom().contains(k)
                        &&& #[trigger] u.friendships.dom().contains(k)
                        &&& u.friendships == t.friendships.insert(k, u.friendships[k])
                        &&& u.friendships[k].user_id == auth.user_id
                        &&& u.friendships[k].friend_id == body.friend_id
                        &&& u.friendships[k].status is Pending
                    }
            },
            Step::Done(Err(why)) => {
                &&& last.session.stored == t
                &&& !faults ==> body.friend_id == auth.user_id && why is BefriendSelf
            },
            _ => false,
        },
{
    friend_request_runs(faults, n, t, auth.user_id, body.friend_id, first, last);
    if last.step->Done_0 is Ok {
        let u = last.session.stored;
        let row = choose|row: FriendshipRow| #[trigger] gains(t.friendships, row, u.friendships);
        assert(u.friendships.dom().contains(row.id));
        assert(u.friendships[row.id] == row);
    }
}

/// Accepting an offer turns one row, from the sender and waiting, into an accepted
/// one, and changes nothing else. Without such a row it is refused.
pub proof fn accepting_an_offer_accepts_its_row(
    faults: bool,
    n: nat,
    t: Tables,
    auth: AuthUser,
    sender: Id,
    first: Step<AcceptFriendRequest, StatusCode>,
    last: Running<AcceptFriendRequest>,
)
    requires
        t.keyed(),
        call_ensures(accept_friend_request, (auth, sender), first),
        runs(faults, n, begun(first, t), last),
        last.step is Done,
    ensures
        match last.step {
            Step::Done(Ok(code)) => {
                let u = last.session.stored;
                &&& code is NoContent
                &&& sender != auth.user_id
                &&& u == (Tables { friendships: u.friendships, ..t })
                &&& u.friendships.dom() == t.friendships.dom()
                &&& exists|k: Id|
                    {
                        &&& #[trigger] t.friendships.dom().contains(k)
                        &&& t.friendships[k].user_id == sender
                        &&& t.friendships[k].friend_id == auth.user_id
                        &&& t.friendships[k].status is Pending
                        &&& u.friendships[k].id == t.friendships[k].id
                        &&& u.friendships[k].user_id == sender
                        &&& u.friendships[k].friend_id == auth.user_id
                        &&& u.friendships[k].status is Accepted
                        &&& forall|j: Id| #[trigger]
                            t.friendships.dom().contains(j) && j != k ==> u.friendships[j]
                                == t.friendships[j]
                    }
            },
            Step::Done(Err(why)) => {
                &&& last.session.stored == t
                &&& !faults ==> if sender == auth.user_id {
                    why is AcceptSelf
                } else {
                    why is FriendRequestMissing && forall|k: Id| #[trigger]
                        t.friendships.dom().contains(k) ==> !(t.friendships[k].user_id == sender
                            && t.friendships[k].friend_id == auth.user_id
                            && t.friendships[k].status is Pending)
                }
            },
            _ => false,
        },
{
    accept_friend_request_runs(faults, n, t, auth.user_id, sender, first, last);
    if last.step->Done_0 is Ok {
        let u = last.session.stored;
        let offer = choose|offer: Id| #[trigger]
            is_offer(t, offer, sender, auth.user_id) && u == with_friendship(t, offer);
        assert(u.friendships.dom() =~= t.friendships.dom());
        assert(t.friendships.dom().contains(offer));
    }
}

/// Rejecting an offer removes one row, from the sender and waiting, and changes
/// nothing else. Without such a row it is refused.
pub proof fn rejecting_an_offer_removes_its_row(
    faults: bool,
    n: nat,
    t: Tables,
    auth: AuthUser,
    sender: Id,
    first: Step<RejectFriendRequest, StatusCode>,
    last: Running<RejectFriendRequest>,
)
    requires
        t.keyed(),
        call_ensures(reject_friend_request, (auth, sender), first),
        runs(faults, n, begun(first, t), last),
        last.step is Done,
    ensures
        match last.step {
            Step::Done(Ok(code)) => {
                let u = last.session.stored;
                &&& code is NoContent
                &&& sender != auth.user_id
                &&& u == (Tables { friendships: u.friendships, ..t })
                &&& exists|k: Id|
                    {
                        &&& #[trigger] t.friendships.dom().contains(k)
                        &&& t.friendships[k].user_id == sender
                        &&& t.friendships[k].friend_id == auth.user_id
                        &&& t.friendships[k].status is Pending
                        &&& u.friendships == t.friendships.remove(k)
                    }
            },
            Step::Done(Err(why)) => {
                &&& last.session.stored == t
                &&& !faults ==> if sender == auth.user_id {
                    why is RejectSelf
                } else {
                    why is FriendRequestMissing && forall|k: Id| #[trigger]
                        t.friendships.dom().contains(k) ==> !(t.friendships[k].user_id == sender
                            && t.friendships[k].friend_id == auth.user_id
                            && t.friendships[k].status is Pending)
                }
            },
            _ => false,
        },
{
    reject_friend_request_runs(faults, n, t, auth.user_id, sender, first, last);
}

/// Ending a friendship removes the accepted rows between the two, whoever offered
/// them, and changes nothing else. Without such a row it is refused.
pub proof fn ending_a_friendship_removes_its_rows(
    faults: bool,
    n: nat,
    t: Tables,
    auth: AuthUser,
    friend_id: Id,
    first: Step<RemoveFriend, StatusCode>,
    last: Running<RemoveFriend>,
)
    requires
        t.keyed(),
        call_ensures(remove_friend, (auth, friend_id), first),
        runs(faults, n, begun(first, t), last),
        last.step is Done,
    ensures
        ({
            let me = auth.user_id;
            let between = |row: FriendshipRow|
                row.status is Accepted && ((row.user_id == me && row.friend_id == friend_id) || (
                row.user_id == friend_id && row.friend_id == me));
            match last.step {
                Step::Done(Ok(code)) => {
                    let u = last.session.stored;
                    &&& code is NoContent
                    &&& friend_id != me
                    &&& u == (Tables { friendships: u.friendships, ..t })
                    &&& exists|k: Id| #[trigger]
                        t.friendships.dom().contains(k) && between(t.friendships[k])
                    &&& forall|k: Id| #[trigger]
                        u.friendships.dom().contains(k) <==> t.friendships.dom().contains(k)
                            && !between(t.friendships[k])
                    &&& forall|k: Id| #[trigger]
                        u.friendships.dom().contains(k) ==> u.friendships[k] == t.friendships[k]
                },
                Step::Done(Err(why)) => {
                    &&& last.session.stored == t
                    &&& !faults ==> if friend_id == me {
                        why is RemoveSelf
                    } else {
                        why is FriendshipMissing && forall|k: Id| #[trigger]
                            t.friendships.dom().contains(k) ==> !between(t.friendships[k])
                    }
                },
                _ => false,
            }
        }),
{
    remove_friend_runs(faults, n, t, auth.user_id, friend_id, first, last);
}

} // verus!
