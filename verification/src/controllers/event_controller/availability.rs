//! Who is free on a day.

use crate::controllers::dates::{named_day, parse_date, reads_back};
use crate::controllers::event_controller::rules::{busy_on, ensure_day_is_free};
use crate::controllers::friends::{accepted_friendships, accepted_with};
use crate::controllers::models::{
    AuthUser, AvailableFriendsResponse, UserAvailabilityResponse,
};
use crate::entities::{BusydayRow, FriendshipRow, Id, UserRow};
use crate::controllers::friendship_controller::{shows_users, user_dtos};
use crate::machine::{steps_left, Machine, Step};
use crate::refusal::Refusal;
use crate::store::{BusydayTest, Cond, Order, Reply, Request, UserTest};
use crate::time::Date;
use vstd::prelude::*;

verus! {

#[derive(Debug)]
pub struct CheckAvailabilityQuery {
    pub date: String,
}

/// Says whether the user's own day is free.
pub enum CheckUserAvailability {
    Day { me: Id, date: Date },
}

/// Asks whether the user who is signed in is free on a day.
pub fn check_user_availability(auth: AuthUser, q: CheckAvailabilityQuery) -> (step: Step<
    CheckUserAvailability,
    UserAvailabilityResponse,
>)
    ensures
        match named_day(q.date@) {
            None => step.refused(Refusal::InvalidDate),
            Some(day) => step matches Step::Ask(CheckUserAvailability::Day { me, date }, _) && me
                == auth.user_id && date.ymd() == day,
        },
        reads_back(q.date@),
        step matches Step::Ask(m, request) ==> m.asking(request),
{
    let me: Id = auth.user_id;
    match parse_date(q.date.as_str()) {
        Ok(date) => Step::Ask(
            CheckUserAvailability::Day { me, date },
            ensure_day_is_free(me, date),
        ),
        Err(why) => Step::Done(Err(why)),
    }
}

impl Machine for CheckUserAvailability {
    type Out = UserAvailabilityResponse;

    open spec fn asking(self, request: Request) -> bool {
        match self {
            CheckUserAvailability::Day { me, date } => {
                &&& request matches Request::OneBusyday(c)
                &&& c.means(busy_on(me, date))
            },
        }
    }

    open spec fn next(self, reply: Reply, step: Step<Self, UserAvailabilityResponse>) -> bool {
        match reply {
            Reply::Busyday(found) => step matches Step::Done(Ok(shown)) && shown.is_available
                == (found is None),
            _ => step.refused(Refusal::Internal),
        }
    }

    open spec fn left(self) -> (nat, nat, nat, nat, nat) {
        match self {
            CheckUserAvailability::Day { .. } => steps_left(0),
        }
    }

    proof fn nears_end(self, reply: Reply, step: Step<Self, UserAvailabilityResponse>) {
    }

    fn resume(self, reply: Reply) -> (step: Step<Self, UserAvailabilityResponse>) {
        match reply {
            Reply::Busyday(found) => Step::Done(
                Ok(UserAvailabilityResponse { is_available: found.is_none() }),
            ),
            _ => Step::Done(Err(Refusal::Internal)),
        }
    }
}

/// The other side of a friendship of `me`.
pub open spec fn friend_in(row: FriendshipRow, me: Id) -> Id {
    if row.user_id == me {
        row.friend_id
    } else {
        row.user_id
    }
}

/// The other sides of friendships of `me`.
pub open spec fn friends_in(rows: Seq<FriendshipRow>, me: Id) -> Seq<Id> {
    rows.map_values(|row: FriendshipRow| friend_in(row, me))
}

fn friend_ids(rows: &Vec<FriendshipRow>, me: Id) -> (ids: Vec<Id>)
    ensures
        ids@ == friends_in(rows@, me),
{
    let mut ids: Vec<Id> = Vec::new();
    for i in 0..rows.len()
        invariant
            ids@ == friends_in(rows@.take(i as int), me),
    {
        let row = rows[i];
        if row.user_id == me {
            ids.push(row.friend_id);
        } else {
            ids.push(row.user_id);
        }
        assert(ids@ =~= friends_in(rows@.take(i + 1), me));
    }
    assert(rows@.take(rows@.len() as int) == rows@);
    ids
}

/// The users whose days `rows` are.
pub open spec fn users_in(rows: Seq<BusydayRow>) -> Seq<Id> {
    rows.map_values(|row: BusydayRow| row.user_id)
}

fn user_ids(rows: &Vec<BusydayRow>) -> (ids: Vec<Id>)
    ensures
        ids@ == users_in(rows@),
{
    let mut ids: Vec<Id> = Vec::new();
    for i in 0..rows.len()
        invariant
            ids@ == users_in(rows@.take(i as int)),
    {
        ids.push(rows[i].user_id);
        assert(ids@ =~= users_in(rows@.take(i + 1)));
    }
    assert(rows@.take(rows@.len() as int) == rows@);
    ids
}

/// Lists the friends who are free on a day, by username.
pub enum CheckFriendsAvailability {
    Friends { me: Id, date: Date },
    /// The days of those friends that are taken.
    Busy { date: Date, friends: Vec<Id> },
    /// The friends but for the busy ones.
    Users { among: Ghost<Seq<Id>>, busy: Ghost<Seq<Id>> },
}

/// Asks which friends of the user who is signed in are free on a day.
pub fn check_friends_availability(auth: AuthUser, q: CheckAvailabilityQuery) -> (step: Step<
    CheckFriendsAvailability,
    AvailableFriendsResponse,
>)
    ensures
        match named_day(q.date@) {
            None => step.refused(Refusal::InvalidDate),
            Some(day) => step matches Step::Ask(CheckFriendsAvailability::Friends { me, date }, _)
                && me == auth.user_id && date.ymd() == day,
        },
        reads_back(q.date@),
        step matches Step::Ask(m, request) ==> m.asking(request),
{
    let me: Id = auth.user_id;
    match parse_date(q.date.as_str()) {
        Ok(date) => Step::Ask(
            CheckFriendsAvailability::Friends { me, date },
            Request::AllFriendships(accepted_friendships(me)),
        ),
        Err(why) => Step::Done(Err(why)),
    }
}

impl Machine for CheckFriendsAvailability {
    type Out = AvailableFriendsResponse;

    open spec fn asking(self, request: Request) -> bool {
        match self {
            CheckFriendsAvailability::Friends { me, date } => {
                &&& request matches Request::AllFriendships(c)
                &&& c.means(accepted_with(me))
            },
            CheckFriendsAvailability::Busy { date, friends } => {
                &&& request matches Request::AllBusydays(c, _)
                &&& c.means(
                    |row: BusydayRow| row.date == date && friends@.contains(row.user_id),
                )
            },
            CheckFriendsAvailability::Users { among, busy } => {
                &&& request matches Request::AllUsers(c, Order::Ascending)
                &&& c.means(
                    |user: UserRow| among@.contains(user.id) && !busy@.contains(user.id),
                )
            },
        }
    }

    open spec fn next(self, reply: Reply, step: Step<Self, AvailableFriendsResponse>) -> bool {
        match self {
            CheckFriendsAvailability::Friends { me, date } => match reply {
                Reply::Friendships(rows) => if rows@.len() == 0 {
                    step matches Step::Done(Ok(shown)) && shown.available_friends@.len() == 0
                } else {
                    step matches Step::Ask(
                        CheckFriendsAvailability::Busy { date: d, friends },
                        _,
                    ) && d == date && friends@ == friends_in(rows@, me)
                },
                _ => step.refused(Refusal::Internal),
            },
            CheckFriendsAvailability::Busy { date, friends } => match reply {
                Reply::Busydays(rows) => step.waits_at(
                    CheckFriendsAvailability::Users {
                        among: Ghost(friends@),
                        busy: Ghost(users_in(rows@)),
                    },
                ),
                _ => step.refused(Refusal::Internal),
            },
            CheckFriendsAvailability::Users { among, busy } => match reply {
                Reply::Users(users) => step matches Step::Done(Ok(shown)) && shows_users(
                    users@,
                    shown.available_friends@,
                ),
                _ => step.refused(Refusal::Internal),
            },
        }
    }

    open spec fn left(self) -> (nat, nat, nat, nat, nat) {
        match self {
            CheckFriendsAvailability::Friends { .. } => steps_left(2),
            CheckFriendsAvailability::Busy { .. } => steps_left(1),
            CheckFriendsAvailability::Users { .. } => steps_left(0),
        }
    }

    proof fn nears_end(self, reply: Reply, step: Step<Self, AvailableFriendsResponse>) {
    }

    fn resume(self, reply: Reply) -> (step: Step<Self, AvailableFriendsResponse>) {
        match self {
            CheckFriendsAvailability::Friends { me, date } => match reply {
                Reply::Friendships(rows) => {
                    let friends = friend_ids(&rows, me);
                    if friends.len() == 0 {
                        return Step::Done(
                            Ok(AvailableFriendsResponse { available_friends: Vec::new() }),
                        );
                    }
                    let request = Request::AllBusydays(
                        Cond::is(BusydayTest::DateIs(date)).and(
                            Cond::is(BusydayTest::UserIdIn(friends.clone())),
                        ),
                        Order::Unspecified,
                    );
                    Step::Ask(CheckFriendsAvailability::Busy { date, friends }, request)
                },
                _ => Step::Done(Err(Refusal::Internal)),
            },
            CheckFriendsAvailability::Busy { date, friends } => match reply {
                Reply::Busydays(rows) => {
                    let busy = user_ids(&rows);
                    let next = CheckFriendsAvailability::Users {
                        among: Ghost(friends@),
                        busy: Ghost(busy@),
                    };
                    let among = Cond::is(UserTest::IdIn(friends));
                    if busy.len() == 0 {
                        assert(busy@ == Seq::<Id>::empty());
                        Step::Ask(next, Request::AllUsers(among, Order::Ascending))
                    } else {
                        let free = among.and(Cond::is(UserTest::IdNotIn(busy)));
                        Step::Ask(next, Request::AllUsers(free, Order::Ascending))
                    }
                },
                _ => Step::Done(Err(Refusal::Internal)),
            },
            CheckFriendsAvailability::Users { among, busy } => match reply {
                Reply::Users(users) => Step::Done(
                    Ok(AvailableFriendsResponse { available_friends: user_dtos(&users) }),
                ),
                _ => Step::Done(Err(Refusal::Internal)),
            },
        }
    }
}

} // verus!
