//! Who counts as a friend.

use crate::entities::{FriendshipRow, FriendshipStatus, Id};
use crate::store::{Cond, FriendshipTest, Request};
use vstd::prelude::*;

verus! {

/// The accepted friendships between two users, whoever offered them.
pub open spec fn accepted_between(a: Id, b: Id) -> spec_fn(FriendshipRow) -> bool {
    |row: FriendshipRow|
        row.status is Accepted && ((row.user_id == a && row.friend_id == b) || (row.user_id == b
            && row.friend_id == a))
}

/// The accepted friendships of a user.
pub open spec fn accepted_with(me: Id) -> spec_fn(FriendshipRow) -> bool {
    |row: FriendshipRow| row.status is Accepted && (row.user_id == me || row.friend_id == me)
}

/// The condition on a friendship between two users that is accepted.
pub fn accepted_friendship(user_a: Id, user_b: Id) -> (r: Cond<FriendshipTest>)
    ensures
        r.means(accepted_between(user_a, user_b)),
{
    let forth = Cond::is(FriendshipTest::UserId(user_a)).and(
        Cond::is(FriendshipTest::FriendId(user_b)),
    );
    let back = Cond::is(FriendshipTest::UserId(user_b)).and(
        Cond::is(FriendshipTest::FriendId(user_a)),
    );
    Cond::is(FriendshipTest::StatusIs(FriendshipStatus::Accepted)).and(forth.or(back))
}

/// Asks whether two users are accepted friends: they are if a row comes back.
pub fn are_users_accepted_friends(user_a: Id, user_b: Id) -> (r: Request)
    ensures
        r matches Request::OneFriendship(c) && c.means(accepted_between(user_a, user_b)),
{
    Request::OneFriendship(accepted_friendship(user_a, user_b))
}

/// The condition on the accepted friendships of a user.
pub fn accepted_friendships(me: Id) -> (r: Cond<FriendshipTest>)
    ensures
        r.means(accepted_with(me)),
{
    let mine = Cond::is(FriendshipTest::UserId(me)).or(Cond::is(FriendshipTest::FriendId(me)));
    Cond::is(FriendshipTest::StatusIs(FriendshipStatus::Accepted)).and(mine)
}

} // verus!
