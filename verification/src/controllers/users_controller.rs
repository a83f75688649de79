//! Users: their profiles, and finding them.

use crate::controllers::models::{
    AuthUser, UpdateUserRequestBody, UserNameSearchQuery, UserResponse,
};
use crate::entities::{Id, UserRow};
use crate::machine::{steps_left, Machine, Step};
use crate::pattern::like_prefix;
use crate::refusal::Refusal;
use crate::store::{Cond, Order, Reply, Request, UserChanges, UserTest};
use crate::text::{blank, is_blank};
use vstd::prelude::*;

verus! {

/// What is shown of a user's profile.
pub open spec fn shows_profile(user: UserRow, shown: UserResponse) -> bool {
    &&& shown.id == user.id
    &&& shown.username == user.username
    &&& shown.avatar_url == user.avatar_url
    &&& shown.bio == user.bio
}

/// What is shown of users' profiles, one by one.
pub open spec fn shows_profiles(users: Seq<UserRow>, shown: Seq<UserResponse>) -> bool {
    &&& shown.len() == users.len()
    &&& forall|i: int| 0 <= i < users.len() ==> shows_profile(users[i], #[trigger] shown[i])
}

/// What is shown of a user's profile.
pub fn user_response(user: UserRow) -> (r: UserResponse)
    ensures
        shows_profile(user, r),
{
    UserResponse {
        id: user.id,
        username: user.username,
        avatar_url: user.avatar_url,
        bio: user.bio,
    }
}

fn user_responses(users: Vec<UserRow>) -> (shown: Vec<UserResponse>)
    ensures
        shows_profiles(users@, shown@),
{
    let mut shown: Vec<UserResponse> = Vec::new();
    for user in rows: users
        invariant
            rows.seq() == users@,
            shows_profiles(users@.take(rows.index() as int), shown@),
    {
        shown.push(user_response(user));
    }
    assert(users@.take(users@.len() as int) == users@);
    shown
}

/// The user with this identifier.
pub open spec fn user_of(id: Id) -> spec_fn(UserRow) -> bool {
    |user: UserRow| user.id == id
}

fn find_user(id: Id) -> (r: Request)
    ensures
        r matches Request::OneUser(c) && c.means(user_of(id)),
{
    Request::OneUser(Cond::is(UserTest::Id(id)))
}

/// Shows a profile: one's own, or that of any user.
pub enum GetUser {
    Me { id: Id },
    Any { id: Id },
}

/// Asks for the profile of the user who is signed in.
pub fn get_me(auth_user: AuthUser) -> (step: Step<GetUser, UserResponse>)
    ensures
        step.waits_at(GetUser::Me { id: auth_user.user_id }),
        step matches Step::Ask(m, request) && m.asking(request),
{
    let id: Id = auth_user.user_id;
    Step::Ask(GetUser::Me { id }, find_user(id))
}

/// Asks for the profile of a user.
pub fn get_user_by_id(id: Id) -> (step: Step<GetUser, UserResponse>)
    ensures
        step.waits_at(GetUser::Any { id }),
        step matches Step::Ask(m, request) && m.asking(request),
{
    Step::Ask(GetUser::Any { id }, find_user(id))
}

impl Machine for GetUser {
    type Out = UserResponse;

    open spec fn asking(self, request: Request) -> bool {
        match self {
            GetUser::Me { id } | GetUser::Any { id } => {
                &&& request matches Request::OneUser(c)
                &&& c.means(user_of(id))
            },
        }
    }

    open spec fn next(self, reply: Reply, step: Step<Self, UserResponse>) -> bool {
        match reply {
            Reply::User(Some(user)) => step matches Step::Done(Ok(shown)) && shows_profile(
                user,
                shown,
            ),
            Reply::User(None) => step.refused(
                if self is Me {
                    Refusal::OwnProfileMissing
                } else {
                    Refusal::ProfileMissing
                },
            ),
            _ => step.refused(
                if self is Me {
                    Refusal::OwnProfileUnavailable
                } else {
                    Refusal::ProfileUnavailable
                },
            ),
        }
    }

    open spec fn left(self) -> (nat, nat, nat, nat, nat) {
        match self {
            GetUser::Me { .. } | GetUser::Any { .. } => steps_left(0),
        }
    }

    proof fn nears_end(self, reply: Reply, step: Step<Self, UserResponse>) {
    }

    fn resume(self, reply: Reply) -> (step: Step<Self, UserResponse>) {
        match reply {
            Reply::User(Some(user)) => Step::Done(Ok(user_response(user))),
            Reply::User(None) => match self {
                GetUser::Me { .. } => Step::Done(Err(Refusal::OwnProfileMissing)),
                GetUser::Any { .. } => Step::Done(Err(Refusal::ProfileMissing)),
            },
            _ => match self {
                GetUser::Me { .. } => Step::Done(Err(Refusal::OwnProfileUnavailable)),
                GetUser::Any { .. } => Step::Done(Err(Refusal::ProfileUnavailable)),
            },
        }
    }
}

/// Updates one's own profile.
pub enum UpdateMe {
    Find { me: Id, payload: UpdateUserRequestBody },
    Update { id: Id, wanted: Ghost<UpdateUserRequestBody> },
}

/// Asks to update the profile of the user who is signed in.
pub fn update_me(auth: AuthUser, payload: UpdateUserRequestBody) -> (step: Step<
    UpdateMe,
    UserResponse,
>)
    ensures
        step.waits_at(UpdateMe::Find { me: auth.user_id, payload }),
        step matches Step::Ask(m, request) && m.asking(request),
{
    let me: Id = auth.user_id;
    Step::Ask(UpdateMe::Find { me, payload }, find_user(me))
}

impl Machine for UpdateMe {
    type Out = UserResponse;

    open spec fn asking(self, request: Request) -> bool {
        match self {
            UpdateMe::Find { me, payload } => {
                &&& request matches Request::OneUser(c)
                &&& c.means(user_of(me))
            },
            UpdateMe::Update { id, wanted } => {
                &&& request matches Request::UpdateUser(i, changes)
                &&& i == id
                &&& changes.username == wanted@.username
                &&& changes.avatar_url == wanted@.avatar_url
                &&& changes.bio == wanted@.bio
            },
        }
    }

    open spec fn next(self, reply: Reply, step: Step<Self, UserResponse>) -> bool {
        match self {
            UpdateMe::Find { me, payload } => match reply {
                Reply::User(Some(user)) => step.waits_at(
                    UpdateMe::Update { id: user.id, wanted: Ghost(payload) },
                ),
                Reply::User(None) => step.refused(Refusal::OwnProfileMissing),
                _ => step.refused(Refusal::OwnProfileUnavailable),
            },
            UpdateMe::Update { id, wanted } => match reply {
                Reply::StoredUser(user) => step matches Step::Done(Ok(shown)) && shows_profile(
                    user,
                    shown,
                ),
                _ => step.refused(Refusal::OwnProfileNotUpdated),
            },
        }
    }

    open spec fn left(self) -> (nat, nat, nat, nat, nat) {
        match self {
            UpdateMe::Find { .. } => steps_left(1),
            UpdateMe::Update { .. } => steps_left(0),
        }
    }

    proof fn nears_end(self, reply: Reply, step: Step<Self, UserResponse>) {
    }

    fn resume(self, reply: Reply) -> (step: Step<Self, UserResponse>) {
        match self {
            UpdateMe::Find { me, payload } => match reply {
                Reply::User(Some(user)) => {
                    let ghost wanted = payload;
                    let changes = UserChanges {
                        username: payload.username,
                        avatar_url: payload.avatar_url,
                        bio: payload.bio,
                    };
                    Step::Ask(
                        UpdateMe::Update { id: user.id, wanted: Ghost(wanted) },
                        Request::UpdateUser(user.id, changes),
                    )
                },
                Reply::User(None) => Step::Done(Err(Refusal::OwnProfileMissing)),
                _ => Step::Done(Err(Refusal::OwnProfileUnavailable)),
            },
            UpdateMe::Update { id, wanted } => match reply {
                Reply::StoredUser(user) => Step::Done(Ok(user_response(user))),
                _ => Step::Done(Err(Refusal::OwnProfileNotUpdated)),
            },
        }
    }
}

/// Finds users by the beginning of their names.
pub enum SearchUsers {
    Users { wanted: Ghost<Seq<char>> },
}

/// The text that a client searches for: none, unless the client says.
pub open spec fn searched(query: UserNameSearchQuery) -> Seq<char> {
    match query.username {
        Some(text) => text@,
        None => Seq::empty(),
    }
}

/// Asks for the users whose names begin with a text.
pub fn search_users(query: UserNameSearchQuery) -> (step: Step<SearchUsers, Vec<UserResponse>>)
    ensures
        if blank(searched(query)) {
            step.refused(Refusal::SearchTextMissing)
        } else {
            step.waits_at(SearchUsers::Users { wanted: Ghost(searched(query)) })
        },
        step matches Step::Ask(m, request) ==> m.asking(request),
{
    let username = match query.username {
        Some(text) => text,
        None => String::new(),
    };
    if is_blank(username.as_str()) {
        return Step::Done(Err(Refusal::SearchTextMissing));
    }
    Step::Ask(
        SearchUsers::Users { wanted: Ghost(username@) },
        Request::AllUsers(
            Cond::is(UserTest::UsernameLike(like_prefix(username.as_str()))),
            Order::Unspecified,
        ),
    )
}

impl Machine for SearchUsers {
    type Out = Vec<UserResponse>;

    open spec fn asking(self, request: Request) -> bool {
        match self {
            SearchUsers::Users { wanted } => {
                &&& request matches Request::AllUsers(c, _)
                &&& c.means(|user: UserRow| wanted@.is_prefix_of(user.username@))
            },
        }
    }

    open spec fn next(self, reply: Reply, step: Step<Self, Vec<UserResponse>>) -> bool {
        match reply {
            Reply::Users(users) => step matches Step::Done(Ok(shown)) && shows_profiles(
                users@,
                shown@,
            ),
            _ => step.refused(Refusal::SearchFailed),
        }
    }

    open spec fn left(self) -> (nat, nat, nat, nat, nat) {
        match self {
            SearchUsers::Users { .. } => steps_left(0),
        }
    }

    proof fn nears_end(self, reply: Reply, step: Step<Self, Vec<UserResponse>>) {
    }

    fn resume(self, reply: Reply) -> (step: Step<Self, Vec<UserResponse>>) {
        match reply {
            Reply::Users(users) => Step::Done(Ok(user_responses(users))),
            _ => Step::Done(Err(Refusal::SearchFailed)),
        }
    }
}

} // verus!
