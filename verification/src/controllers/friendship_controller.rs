//! Friendships: offering, accepting, rejecting and ending them.

use crate::controllers::friends::{accepted_between, accepted_friendship, accepted_friendships, accepted_with};
use crate::controllers::models::{AuthUser, FriendIdBody, UserDTO};
use crate::entities::{FriendshipRow, FriendshipStatus, Id, UserRow};
use crate::machine::{steps_left, Machine, Step};
use crate::refusal::{Refusal, StatusCode};
use crate::store::{Cond, FriendshipTest, NewFriendship, Order, Reply, Request, UserTest};
use vstd::prelude::*;

verus! {

/// What is shown of a user.
pub open spec fn shows_user(user: UserRow, shown: UserDTO) -> bool {
    &&& shown.id == user.id
    &&& shown.username == user.username
    &&& shown.avatar_url == user.avatar_url
    &&& shown.bio == user.bio
}

/// What is shown of users, one by one.
pub open spec fn shows_users(users: Seq<UserRow>, shown: Seq<UserDTO>) -> bool {
    &&& shown.len() == users.len()
    &&& forall|i: int| 0 <= i < users.len() ==> shows_user(users[i], #[trigger] shown[i])
}

/// What is shown of a user.
pub fn to_user_dto(u: &UserRow) -> (r: UserDTO)
    ensures
        shows_user(*u, r),
{
    UserDTO {
        id: u.id,
        username: u.username.clone(),
        avatar_url: u.avatar_url.clone(),
        bio: u.bio.clone(),
    }
}

/// What is shown of users, one by one.
pub fn user_dtos(users: &Vec<UserRow>) -> (shown: Vec<UserDTO>)
    ensures
        shows_users(users@, shown@),
{
    let mut shown: Vec<UserDTO> = Vec::new();
    for i in 0..users.len()
        invariant
            shows_users(users@.take(i as int), shown@),
    {
        shown.push(to_user_dto(&users[i]));
    }
    assert(users@.take(users@.len() as int) == users@);
    shown
}

/// Which people are listed.
#[derive(Clone, Copy, Debug, PartialEq, Eq, Structural)]
pub enum Circle {
    /// Those whose friendship is accepted.
    Friends,
    /// Those who have offered their friendship.
    Incoming,
    /// Those to whom friendship has been offered.
    Outgoing,
}

impl Circle {
    pub open spec fn friendships(self, me: Id) -> spec_fn(FriendshipRow) -> bool {
        match self {
            Circle::Friends => accepted_with(me),
            Circle::Incoming => |row: FriendshipRow|
                row.friend_id == me && row.status is Pending,
            Circle::Outgoing => |row: FriendshipRow| row.user_id == me && row.status is Pending,
        }
    }

    /// The other side of a friendship.
    pub open spec fn other(self, row: FriendshipRow, me: Id) -> Id {
        match self {
            Circle::Friends => if row.friend_id == me {
                row.user_id
            } else {
                row.friend_id
            },
            Circle::Incoming => row.user_id,
            Circle::Outgoing => row.friend_id,
        }
    }

    pub open spec fn others(self, rows: Seq<FriendshipRow>, me: Id) -> Seq<Id> {
        rows.map_values(|row: FriendshipRow| self.other(row, me))
    }

    fn wanted(self, me: Id) -> (r: Cond<FriendshipTest>)
        ensures
            r.means(self.friendships(me)),
    {
        match self {
            Circle::Friends => accepted_friendships(me),
            Circle::Incoming => Cond::is(FriendshipTest::FriendId(me)).and(
                Cond::is(FriendshipTest::StatusIs(FriendshipStatus::Pending)),
            ),
            Circle::Outgoing => Cond::is(FriendshipTest::UserId(me)).and(
                Cond::is(FriendshipTest::StatusIs(FriendshipStatus::Pending)),
            ),
        }
    }

    fn ids(self, rows: &Vec<FriendshipRow>, me: Id) -> (ids: Vec<Id>)
        ensures
            ids@ == self.others(rows@, me),
    {
        let mut ids: Vec<Id> = Vec::new();
        for i in 0..rows.len()
            invariant
                ids@ == self.others(rows@.take(i as int), me),
        {
            let row = rows[i];
            let id: Id = match self {
                Circle::Friends => if row.friend_id == me {
                    row.user_id
                } else {
                    row.friend_id
                },
                Circle::Incoming => row.user_id,
                Circle::Outgoing => row.friend_id,
            };
            ids.push(id);
            assert(ids@ =~= self.others(rows@.take(i + 1), me));
        }
        assert(rows@.take(rows@.len() as int) == rows@);
        ids
    }
}

/// Lists people by their friendship with `me`.
pub enum ListPeople {
    Friendships { me: Id, circle: Circle },
    Users { among: Ghost<Seq<Id>> },
}

fn list_people(me: Id, circle: Circle) -> (step: Step<ListPeople, Vec<UserDTO>>)
    ensures
        step.waits_at(ListPeople::Friendships { me, circle }),
        step matches Step::Ask(m, request) && m.asking(request),
{
    let request = Request::AllFriendships(circle.wanted(me));
    Step::Ask(ListPeople::Friendships { me, circle }, request)
}

/// Asks for the friends of the user who is signed in.
pub fn get_friends(auth: AuthUser) -> (step: Step<ListPeople, Vec<UserDTO>>)
    ensures
        step.waits_at(ListPeople::Friendships { me: auth.user_id, circle: Circle::Friends }),
        step matches Step::Ask(m, request) && m.asking(request),
{
    list_people(auth.user_id, Circle::Friends)
}

/// Asks for those who have offered the user their friendship.
pub fn get_incoming(auth: AuthUser) -> (step: Step<ListPeople, Vec<UserDTO>>)
    ensures
        step.waits_at(ListPeople::Friendships { me: auth.user_id, circle: Circle::Incoming }),
        step matches Step::Ask(m, request) && m.asking(request),
{
    list_people(auth.user_id, Circle::Incoming)
}

/// Asks for those to whom the user has offered friendship.
pub fn get_outgoing(auth: AuthUser) -> (step: Step<ListPeople, Vec<UserDTO>>)
    ensures
        step.waits_at(ListPeople::Friendships { me: auth.user_id, circle: Circle::Outgoing }),
        step matches Step::Ask(m, request) && m.asking(request),
{
    list_people(auth.user_id, Circle::Outgoing)
}

impl Machine for ListPeople {
    type Out = Vec<UserDTO>;

    open spec fn asking(self, request: Request) -> bool {
        match self {
            ListPeople::Friendships { me, circle } => {
                &&& request matches Request::AllFriendships(c)
                &&& c.means(circle.friendships(me))
            },
            ListPeople::Users { among } => {
                &&& request matches Request::AllUsers(c, _)
                &&& c.means(|user: UserRow| among@.contains(user.id))
            },
        }
    }

    open spec fn next(self, reply: Reply, step: Step<Self, Vec<UserDTO>>) -> bool {
        match self {
            ListPeople::Friendships { me, circle } => match reply {
                Reply::Friendships(rows) => if rows@.len() == 0 {
                    step matches Step::Done(Ok(shown)) && shown@.len() == 0
                } else {
                    step.waits_at(ListPeople::Users { among: Ghost(circle.others(rows@, me)) })
                },
                _ => step.refused(Refusal::Internal),
            },
            ListPeople::Users { among } => match reply {
                Reply::Users(users) => step matches Step::Done(Ok(shown)) && shows_users(
                    users@,
                    shown@,
                ),
                _ => step.refused(Refusal::Internal),
            },
        }
    }

    open spec fn left(self) -> (nat, nat, nat, nat, nat) {
        match self {
            ListPeople::Friendships { .. } => steps_left(1),
            ListPeople::Users { .. } => steps_left(0),
        }
    }

    proof fn nears_end(self, reply: Reply, step: Step<Self, Vec<UserDTO>>) {
    }

    fn resume(self, reply: Reply) -> (step: Step<Self, Vec<UserDTO>>) {
        match self {
            ListPeople::Friendships { me, circle } => match reply {
                Reply::Friendships(rows) => {
                    let ids = circle.ids(&rows, me);
                    if ids.len() == 0 {
                        return Step::Done(Ok(Vec::new()));
                    }
                    Step::Ask(
                        ListPeople::Users { among: Ghost(ids@) },
                        Request::AllUsers(Cond::is(UserTest::IdIn(ids)), Order::Unspecified),
                    )
                },
                _ => Step::Done(Err(Refusal::Internal)),
            },
            ListPeople::Users { among } => match reply {
                Reply::Users(users) => Step::Done(Ok(user_dtos(&users))),
                _ => Step::Done(Err(Refusal::Internal)),
            },
        }
    }
}

/// Offers a friendship.
pub enum FriendRequest {
    Insert { me: Id, friend_id: Id },
}

/// Asks to offer friendship to another user.
pub fn friend_request(auth: AuthUser, body: FriendIdBody) -> (step: Step<FriendRequest, StatusCode>)
    ensures
        if body.friend_id == auth.user_id {
            step.refused(Refusal::BefriendSelf)
        } else {
            step.waits_at(
                FriendRequest::Insert { me: auth.user_id, friend_id: body.friend_id },
            )
        },
        step matches Step::Ask(m, request) ==> m.asking(request),
{
    let me: Id = auth.user_id;
    let friend_id: Id = body.friend_id;
    if friend_id == me {
        return Step::Done(Err(Refusal::BefriendSelf));
    }
    Step::Ask(
        FriendRequest::Insert { me, friend_id },
        Request::InsertFriendship(
            NewFriendship { user_id: me, friend_id, status: FriendshipStatus::Pending },
        ),
    )
}

impl Machine for FriendRequest {
    type Out = StatusCode;

    open spec fn asking(self, request: Request) -> bool {
        match self {
            FriendRequest::Insert { me, friend_id } => {
                &&& request matches Request::InsertFriendship(new)
                &&& new.user_id == me
                &&& new.friend_id == friend_id
                &&& new.status is Pending
            },
        }
    }

    open spec fn next(self, reply: Reply, step: Step<Self, StatusCode>) -> bool {
        match reply {
            Reply::Done => step == Step::<Self, StatusCode>::Done(Ok(StatusCode::Created)),
            _ => step.refused(Refusal::Internal),
        }
    }

    open spec fn left(self) -> (nat, nat, nat, nat, nat) {
        match self {
            FriendRequest::Insert { .. } => steps_left(0),
        }
    }

    proof fn nears_end(self, reply: Reply, step: Step<Self, StatusCode>) {
    }

    fn resume(self, reply: Reply) -> (step: Step<Self, StatusCode>) {
        match reply {
            Reply::Done => Step::Done(Ok(StatusCode::Created)),
            _ => Step::Done(Err(Refusal::Internal)),
        }
    }
}

/// Ends a friendship.
pub enum RemoveFriend {
    Delete { me: Id, friend_id: Id },
}

/// Asks to end the friendship with another user.
pub fn remove_friend(auth: AuthUser, friend_id: Id) -> (step: Step<RemoveFriend, StatusCode>)
    ensures
        if friend_id == auth.user_id {
            step.refused(Refusal::RemoveSelf)
        } else {
            step.waits_at(RemoveFriend::Delete { me: auth.user_id, friend_id })
        },
        step matches Step::Ask(m, request) ==> m.asking(request),
{
    let me: Id = auth.user_id;
    if me == friend_id {
        return Step::Done(Err(Refusal::RemoveSelf));
    }
    Step::Ask(
        RemoveFriend::Delete { me, friend_id },
        Request::DeleteFriendships(accepted_friendship(me, friend_id)),
    )
}

impl Machine for RemoveFriend {
    type Out = StatusCode;

    open spec fn asking(self, request: Request) -> bool {
        match self {
            RemoveFriend::Delete { me, friend_id } => {
                &&& request matches Request::DeleteFriendships(c)
                &&& c.means(accepted_between(me, friend_id))
            },
        }
    }

    open spec fn next(self, reply: Reply, step: Step<Self, StatusCode>) -> bool {
        match reply {
            Reply::Count(n) => if n == 0 {
                step.refused(Refusal::FriendshipMissing)
            } else {
                step == Step::<Self, StatusCode>::Done(Ok(StatusCode::NoContent))
            },
            _ => step.refused(Refusal::Internal),
        }
    }

    open spec fn left(self) -> (nat, nat, nat, nat, nat) {
        match self {
            RemoveFriend::Delete { .. } => steps_left(0),
        }
    }

    proof fn nears_end(self, reply: Reply, step: Step<Self, StatusCode>) {
    }

    fn resume(self, reply: Reply) -> (step: Step<Self, StatusCode>) {
        match reply {
            Reply::Count(n) => {
                if n == 0 {
                    return Step::Done(Err(Refusal::FriendshipMissing));
                }
                Step::Done(Ok(StatusCode::NoContent))
            },
            _ => Step::Done(Err(Refusal::Internal)),
        }
    }
}

/// The friendship that `sender` has offered to `me`.
pub open spec fn offered(sender: Id, me: Id) -> spec_fn(FriendshipRow) -> bool {
    |row: FriendshipRow| row.user_id == sender && row.friend_id == me && row.status is Pending
}

fn find_offer(sender: Id, me: Id) -> (r: Request)
    ensures
        r matches Request::OneFriendship(c) && c.means(offered(sender, me)),
{
    Request::OneFriendship(
        Cond::is(FriendshipTest::UserId(sender)).and(Cond::is(FriendshipTest::FriendId(me))).and(
            Cond::is(FriendshipTest::StatusIs(FriendshipStatus::Pending)),
        ),
    )
}

/// Accepts a friendship that has been offered.
pub enum AcceptFriendRequest {
    Offer { me: Id, sender: Id },
    Update { row: Id },
}

/// Asks to accept the friendship that another user has offered.
pub fn accept_friend_request(auth: AuthUser, sender_user_id: Id) -> (step: Step<
    AcceptFriendRequest,
    StatusCode,
>)
    ensures
        if sender_user_id == auth.user_id {
            step.refused(Refusal::AcceptSelf)
        } else {
            step.waits_at(
                AcceptFriendRequest::Offer { me: auth.user_id, sender: sender_user_id },
            )
        },
        step matches Step::Ask(m, request) ==> m.asking(request),
{
    let me: Id = auth.user_id;
    if sender_user_id == me {
        return Step::Done(Err(Refusal::AcceptSelf));
    }
    Step::Ask(
        AcceptFriendRequest::Offer { me, sender: sender_user_id },
        find_offer(sender_user_id, me),
    )
}

impl Machine for AcceptFriendRequest {
    type Out = StatusCode;

    open spec fn asking(self, request: Request) -> bool {
        match self {
            AcceptFriendRequest::Offer { me, sender } => {
                &&& request matches Request::OneFriendship(c)
                &&& c.means(offered(sender, me))
            },
            AcceptFriendRequest::Update { row } => request == Request::UpdateFriendship(
                row,
                FriendshipStatus::Accepted,
            ),
        }
    }

    open spec fn next(self, reply: Reply, step: Step<Self, StatusCode>) -> bool {
        match self {
            AcceptFriendRequest::Offer { me, sender } => match reply {
                Reply::Friendship(Some(row)) => step.waits_at(
                    AcceptFriendRequest::Update { row: row.id },
                ),
                Reply::Friendship(None) => step.refused(Refusal::FriendRequestMissing),
                _ => step.refused(Refusal::Internal),
            },
            AcceptFriendRequest::Update { row } => match reply {
                Reply::Done => step == Step::<Self, StatusCode>::Done(Ok(StatusCode::NoContent)),
                _ => step.refused(Refusal::Internal),
            },
        }
    }

    open spec fn left(self) -> (nat, nat, nat, nat, nat) {
        match self {
            AcceptFriendRequest::Offer { .. } => steps_left(1),
            AcceptFriendRequest::Update { .. } => steps_left(0),
        }
    }

    proof fn nears_end(self, reply: Reply, step: Step<Self, StatusCode>) {
    }

    fn resume(self, reply: Reply) -> (step: Step<Self, StatusCode>) {
        match self {
            AcceptFriendRequest::Offer { me, sender } => match reply {
                Reply::Friendship(Some(row)) => Step::Ask(
                    AcceptFriendRequest::Update { row: row.id },
                    Request::UpdateFriendship(row.id, FriendshipStatus::Accepted),
                ),
                Reply::Friendship(None) => Step::Done(Err(Refusal::FriendRequestMissing)),
                _ => Step::Done(Err(Refusal::Internal)),
            },
            AcceptFriendRequest::Update { row } => match reply {
                Reply::Done => Step::Done(Ok(StatusCode::NoContent)),
                _ => Step::Done(Err(Refusal::Internal)),
            },
        }
    }
}

/// Rejects a friendship that has been offered.
pub enum RejectFriendRequest {
    Offer { me: Id, sender: Id },
    Delete { row: Id },
}

/// Asks to reject the friendship that another user has offered.
pub fn reject_friend_request(auth: AuthUser, sender_user_id: Id) -> (step: Step<
    RejectFriendRequest,
    StatusCode,
>)
    ensures
        if sender_user_id == auth.user_id {
            step.refused(Refusal::RejectSelf)
        } else {
            step.waits_at(
                RejectFriendRequest::Offer { me: auth.user_id, sender: sender_user_id },
            )
        },
        step matches Step::Ask(m, request) ==> m.asking(request),
{
    let me: Id = auth.user_id;
    if sender_user_id == me {
        return Step::Done(Err(Refusal::RejectSelf));
    }
    Step::Ask(
        RejectFriendRequest::Offer { me, sender: sender_user_id },
        find_offer(sender_user_id, me),
    )
}

impl Machine for RejectFriendRequest {
    type Out = StatusCode;

    open spec fn asking(self, request: Request) -> bool {
        match self {
            RejectFriendRequest::Offer { me, sender } => {
                &&& request matches Request::OneFriendship(c)
                &&& c.means(offered(sender, me))
            },
            RejectFriendRequest::Delete { row } => request == Request::DeleteFriendship(row),
        }
    }

    open spec fn next(self, reply: Reply, step: Step<Self, StatusCode>) -> bool {
        match self {
            RejectFriendRequest::Offer { me, sender } => match reply {
                Reply::Friendship(Some(row)) => step.waits_at(
                    RejectFriendRequest::Delete { row: row.id },
                ),
                Reply::Friendship(None) => step.refused(Refusal::FriendRequestMissing),
                _ => step.refused(Refusal::Internal),
            },
            RejectFriendRequest::Delete { row } => match reply {
                Reply::Done => step == Step::<Self, StatusCode>::Done(Ok(StatusCode::NoContent)),
                _ => step.refused(Refusal::Internal),
            },
        }
    }

    open spec fn left(self) -> (nat, nat, nat, nat, nat) {
        match self {
            RejectFriendRequest::Offer { .. } => steps_left(1),
            RejectFriendRequest::Delete { .. } => steps_left(0),
        }
    }

    proof fn nears_end(self, reply: Reply, step: Step<Self, StatusCode>) {
    }

    fn resume(self, reply: Reply) -> (step: Step<Self, StatusCode>) {
        match self {
            RejectFriendRequest::Offer { me, sender } => match reply {
                Reply::Friendship(Some(row)) => Step::Ask(
                    RejectFriendRequest::Delete { row: row.id },
                    Request::DeleteFriendship(row.id),
                ),
                Reply::Friendship(None) => Step::Done(Err(Refusal::FriendRequestMissing)),
                _ => Step::Done(Err(Refusal::Internal)),
            },
            RejectFriendRequest::Delete { row } => match reply {
                Reply::Done => Step::Done(Ok(StatusCode::NoContent)),
                _ => Step::Done(Err(Refusal::Internal)),
            },
        }
    }
}

} // verus!
