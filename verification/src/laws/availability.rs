//! Who is told whether somebody is free, and what.

use crate::controllers::calendar_controller::IsBusy;
use crate::controllers::dates::named_day;
use crate::controllers::event_controller::availability::{
    friend_in, friends_in, users_in, CheckAvailabilityQuery, CheckFriendsAvailability,
    CheckUserAvailability,
};
use crate::controllers::friends::{accepted_between, accepted_with};
use crate::controllers::friendship_controller::{shows_user, shows_users};
use crate::controllers::models::{
    AvailableFriendsResponse, IsBusyRequest, UserAvailabilityResponse, UserDTO,
};
use crate::entities::{BusydayRow, FriendshipRow, Id, UserRow};
use crate::laws::befriending::shows_all_users;
use crate::laws::facts::{are_friends, busy_found, friend_found, is_taken};
use crate::laws::reading::{lists_alike, reading_changes_nothing};
use crate::machine::{Machine, Step};
use crate::model::{begun, exchange, lists, runs, runs_keep, through, Running, Session, Tables};
use crate::refusal::Refusal;
use crate::store::{Order, Reply, Request};
use crate::time::{same_day, Date};
use vstd::prelude::*;

verus! {

/// A user is told that a day is free if it is not taken.
pub proof fn check_user_availability_runs(
    n: nat,
    t: Tables,
    me: Id,
    q: CheckAvailabilityQuery,
    first: Step<CheckUserAvailability, UserAvailabilityResponse>,
    last: Running<CheckUserAvailability>,
)
    requires
        match named_day(q.date@) {
            None => first.refused(Refusal::InvalidDate),
            Some(day) => first matches Step::Ask(CheckUserAvailability::Day { me: a, date }, _)
                && a == me && date.ymd() == day,
        },
        first matches Step::Ask(m, request) ==> m.asking(request),
        runs(false, n, begun(first, t), last),
    ensures
        last.step matches Step::Done(Ok(shown)) ==> {
            &&& named_day(q.date@) matches Some(day)
            &&& shown.is_available == !is_taken(t, me, day)
        },
        last.step matches Step::Done(Err(why)) ==> named_day(q.date@) is None && why is InvalidDate,
        last.session.stored == t,
{
    let kept = |r: Running<CheckUserAvailability>|
        {
            &&& r.session == Session::to(t)
            &&& match r.step {
                Step::Ask(CheckUserAvailability::Day { me: a, date }, request) => {
                    &&& (CheckUserAvailability::Day { me: a, date }).asking(request)
                    &&& a == me
                    &&& named_day(q.date@) == Some(date.ymd())
                },
                Step::Done(Ok(shown)) => named_day(q.date@) matches Some(day)
                    && shown.is_available == !is_taken(t, me, day),
                Step::Done(Err(why)) => named_day(q.date@) is None && why is InvalidDate,
            }
        };
    assert forall|
        c: Running<CheckUserAvailability>,
        reply: Reply,
        d: Running<CheckUserAvailability>,
    |
        kept(c) && #[trigger] exchange(false, c, reply, d) implies kept(d) by {
        let request = c.step->Ask_1;
        let date = c.step->Ask_0->date;
        reading_changes_nothing(c.session, request, reply, d.session);
        busy_found(t, request->OneBusyday_0, reply->Busyday_0, me, date);
    }
    runs_keep(false, n, begun(first, t), last, kept);
}

/// Why `me` is not told whether a user's day is taken, if that is so.
pub open spec fn refusal_to_tell(t: Tables, me: Id, payload: IsBusyRequest) -> Option<Refusal> {
    if me != payload.id && !are_friends(t, me, payload.id) {
        Some(Refusal::AvailabilityForbidden)
    } else if named_day(payload.date@) is None {
        Some(Refusal::InvalidDate)
    } else {
        None
    }
}

/// The user and the user's friends are told whether a day is taken, and nobody
/// else is.
pub proof fn is_busy_runs(
    n: nat,
    t: Tables,
    me: Id,
    payload: IsBusyRequest,
    first: Step<IsBusy, bool>,
    last: Running<IsBusy>,
)
    requires
        if me == payload.id {
            IsBusy::begun(payload, first)
        } else {
            first.waits_at(IsBusy::Friend { me, payload })
        },
        first matches Step::Ask(m, request) ==> m.asking(request),
        runs(false, n, begun(first, t), last),
    ensures
        last.step matches Step::Done(Ok(busy)) ==> {
            &&& refusal_to_tell(t, me, payload) is None
            &&& busy == is_taken(t, payload.id, named_day(payload.date@)->0)
        },
        last.step matches Step::Done(Err(why)) ==> refusal_to_tell(t, me, payload) == Some(why),
        last.session.stored == t,
{
    let kept = |r: Running<IsBusy>|
        {
            &&& r.session == Session::to(t)
            &&& match r.step {
                Step::Ask(m, request) => {
                    &&& m.asking(request)
                    &&& match m {
                        IsBusy::Friend { me: a, payload: p } => a == me && p == payload && me
                            != payload.id,
                        IsBusy::Day { user_id, date } => {
                            &&& user_id == payload.id
                            &&& named_day(payload.date@) == Some(date.ymd())
                            &&& refusal_to_tell(t, me, payload) is None
                        },
                    }
                },
                Step::Done(Ok(busy)) => {
                    &&& refusal_to_tell(t, me, payload) is None
                    &&& busy == is_taken(t, payload.id, named_day(payload.date@)->0)
                },
                Step::Done(Err(why)) => refusal_to_tell(t, me, payload) == Some(why),
            }
        };
    assert forall|c: Running<IsBusy>, reply: Reply, d: Running<IsBusy>|
        kept(c) && #[trigger] exchange(false, c, reply, d) implies kept(d) by {
        let request = c.step->Ask_1;
        reading_changes_nothing(c.session, request, reply, d.session);
        match c.step->Ask_0 {
            IsBusy::Friend { .. } => {
                friend_found(t, request->OneFriendship_0, reply->Friendship_0, me, payload.id);
            },
            IsBusy::Day { user_id, date } => {
                busy_found(t, request->OneBusyday_0, reply->Busyday_0, user_id, date);
            },
        }
    }
    runs_keep(false, n, begun(first, t), last, kept);
}

/// The friends of `me` that a list of friendships names are all of them.
proof fn friendships_name_friends(t: Tables, me: Id, rows: Seq<FriendshipRow>, id: Id)
    requires
        t.keyed(),
        lists(t.friendships, accepted_with(me), rows),
    ensures
        friends_in(rows, me).contains(id) <==> are_friends(t, me, id),
{
    let ids = friends_in(rows, me);
    if ids.contains(id) {
        let i = choose|i: int| 0 <= i < ids.len() && ids[i] == id;
        assert(friend_in(rows[i], me) == id);
        assert(t.friendships.dom().contains(rows[i].id));
        assert(accepted_with(me)(rows[i]));
        assert(accepted_between(me, id)(t.friendships[rows[i].id]));
    }
    if are_friends(t, me, id) {
        let k = choose|k: Id| #[trigger]
            t.friendships.dom().contains(k) && accepted_between(me, id)(t.friendships[k]);
        assert(accepted_with(me)(t.friendships[k]));
        let i = choose|i: int| 0 <= i < rows.len() && (#[trigger] rows[i]) == t.friendships[k];
        assert(ids[i] == id);
    }
}

/// The users that a list of the busy days of some users on a day names are those
/// of them who are taken.
proof fn busy_days_name_users(
    t: Tables,
    date: Date,
    among: Seq<Id>,
    rows: Seq<BusydayRow>,
    id: Id,
)
    requires
        t.keyed(),
        lists(
            t.busydays,
            |row: BusydayRow| row.date == date && among.contains(row.user_id),
            rows,
        ),
    ensures
        users_in(rows).contains(id) <==> among.contains(id) && is_taken(t, id, date.ymd()),
{
    let ids = users_in(rows);
    let wanted = |row: BusydayRow| row.date == date && among.contains(row.user_id);
    if ids.contains(id) {
        let i = choose|i: int| 0 <= i < ids.len() && ids[i] == id;
        assert(rows[i].user_id == id && wanted(rows[i]));
        assert(t.busydays.dom().contains(rows[i].id));
    }
    if among.contains(id) && is_taken(t, id, date.ymd()) {
        let k = choose|k: Id| #[trigger]
            t.busydays.dom().contains(k) && t.busydays[k].user_id == id
                && t.busydays[k].date.ymd() == date.ymd();
        same_day(t.busydays[k].date, date);
        assert(wanted(t.busydays[k]));
        let i = choose|i: int| 0 <= i < rows.len() && (#[trigger] rows[i]) == t.busydays[k];
        assert(ids[i] == id);
    }
}

/// A user is told which friends are free on a day: those whose day is not taken,
/// and no others.
pub proof fn check_friends_availability_runs(
    n: nat,
    t: Tables,
    me: Id,
    q: CheckAvailabilityQuery,
    first: Step<CheckFriendsAvailability, AvailableFriendsResponse>,
    last: Running<CheckFriendsAvailability>,
)
    requires
        t.keyed(),
        match named_day(q.date@) {
            None => first.refused(Refusal::InvalidDate),
            Some(day) => first matches Step::Ask(
                CheckFriendsAvailability::Friends { me: a, date },
                _,
            ) && a == me && date.ymd() == day,
        },
        first matches Step::Ask(m, request) ==> m.asking(request),
        runs(false, n, begun(first, t), last),
    ensures
        last.step matches Step::Done(Ok(shown)) ==> {
            &&& named_day(q.date@) matches Some(day)
            &&& shows_all_users(
                t,
                |user: UserRow| are_friends(t, me, user.id) && !is_taken(t, user.id, day),
                shown.available_friends@,
            )
        },
        last.step matches Step::Done(Err(why)) ==> named_day(q.date@) is None && why is InvalidDate,
        last.session.stored == t,
{
    let day = named_day(q.date@)->0;
    let free = |user: UserRow| are_friends(t, me, user.id) && !is_taken(t, user.id, day);
    let kept = |r: Running<CheckFriendsAvailability>|
        {
            &&& r.session == Session::to(t)
            &&& match r.step {
                Step::Ask(m, request) => {
                    &&& m.asking(request)
                    &&& named_day(q.date@) is Some
                    &&& match m {
                        CheckFriendsAvailability::Friends { me: a, date } => a == me && date.ymd()
                            == day,
                        CheckFriendsAvailability::Busy { date, friends } => {
                            &&& date.ymd() == day
                            &&& forall|id: Id| #[trigger]
                                friends@.contains(id) <==> are_friends(t, me, id)
                        },
                        CheckFriendsAvailability::Users { among, busy } => {
                            &&& forall|id: Id| #[trigger]
                                among@.contains(id) <==> are_friends(t, me, id)
                            &&& forall|id: Id| #[trigger]
                                busy@.contains(id) <==> are_friends(t, me, id) && is_taken(
                                    t,
                                    id,
                                    day,
                                )
                        },
                    }
                },
                Step::Done(Ok(shown)) => named_day(q.date@) is Some && shows_all_users(
                    t,
                    free,
                    shown.available_friends@,
                ),
                Step::Done(Err(why)) => named_day(q.date@) is None && why is InvalidDate,
            }
        };
    assert forall|
        c: Running<CheckFriendsAvailability>,
        reply: Reply,
        d: Running<CheckFriendsAvailability>,
    |
        kept(c) && #[trigger] exchange(false, c, reply, d) implies kept(d) by {
        let request = c.step->Ask_1;
        reading_changes_nothing(c.session, request, reply, d.session);
        match c.step->Ask_0 {
            CheckFriendsAvailability::Friends { .. } => {
                let rows = reply->Friendships_0@;
                lists_alike(
                    t.friendships,
                    through(request->AllFriendships_0),
                    accepted_with(me),
                    rows,
                );
                assert forall|id: Id| #[trigger]
                    friends_in(rows, me).contains(id) <==> are_friends(t, me, id) by {
                    friendships_name_friends(t, me, rows, id);
                }
                if rows.len() == 0 {
                    let none = Seq::<UserRow>::empty();
                    assert(lists(t.users, free, none)) by {
                        assert forall|k: Id| #[trigger] t.users.dom().contains(k) implies !free(
                            t.users[k],
                        ) by {
                            assert(!friends_in(rows, me).contains(t.users[k].id));
                        }
                    }
                    assert(shows_users(none, d.step->Done_0->Ok_0.available_friends@));
                }
            },
            CheckFriendsAvailability::Busy { date, friends } => {
                let rows = reply->Busydays_0@;
                lists_alike(
                    t.busydays,
                    through(request->AllBusydays_0),
                    |row: BusydayRow| row.date == date && friends@.contains(row.user_id),
                    rows,
                );
                assert forall|id: Id| #[trigger]
                    users_in(rows).contains(id) <==> are_friends(t, me, id) && is_taken(
                        t,
                        id,
                        day,
                    ) by {
                    busy_days_name_users(t, date, friends@, rows, id);
                }
            },
            CheckFriendsAvailability::Users { among, busy } => {
                let cond = request->AllUsers_0;
                let users = reply->Users_0@;
                assert forall|user: UserRow| #[trigger] through(cond)(user) == free(user) by {
                    assert(cond.admits(user) == (among@.contains(user.id) && !busy@.contains(
                        user.id,
                    )));
                }
                lists_alike(t.users, through(cond), free, users);
                assert(shows_users(users, d.step->Done_0->Ok_0.available_friends@));
            },
        }
    }
    runs_keep(false, n, begun(first, t), last, kept);
}

/// The names of users, in their order.
pub open spec fn names_of(users: Seq<UserRow>) -> Seq<Seq<char>> {
    users.map_values(|user: UserRow| user.username@)
}

/// The names of the users that are shown, in their order.
pub open spec fn names_shown(shown: Seq<UserDTO>) -> Seq<Seq<char>> {
    shown.map_values(|user: UserDTO| user.username@)
}

/// Names come in an order.
pub open spec fn ascend(names: Seq<Seq<char>>, le: spec_fn(Seq<char>, Seq<char>) -> bool) -> bool {
    forall|i: int, j: int|
        #![trigger names[i], names[j]]
        0 <= i < j < names.len() ==> le(names[i], names[j])
}

/// The free friends come by username, however the database orders names: what is
/// asked last is to list them in ascending order, and they are shown in the order
/// of the answer. That holds whatever the tables are and whatever fails before.
pub proof fn free_friends_come_by_username(
    faults: bool,
    n: nat,
    t: Tables,
    first: Step<CheckFriendsAvailability, AvailableFriendsResponse>,
    asked: Running<CheckFriendsAvailability>,
    reply: Reply,
    last: Running<CheckFriendsAvailability>,
    le: spec_fn(Seq<char>, Seq<char>) -> bool,
)
    requires
        first matches Step::Ask(m, request) ==> m.asking(request),
        runs(faults, n, begun(first, t), asked),
        exchange(faults, asked, reply, last),
        last.step matches Step::Done(Ok(_)),
    ensures
        last.step matches Step::Done(Ok(shown)) && {
            ||| shown.available_friends@.len() == 0
            ||| {
                &&& asked.step->Ask_1 matches Request::AllUsers(_, Order::Ascending)
                &&& reply matches Reply::Users(users)
                &&& names_shown(shown.available_friends@) == names_of(users@)
                &&& ascend(names_of(users@), le) ==> ascend(
                    names_shown(shown.available_friends@),
                    le,
                )
            }
        },
{
    let kept = |r: Running<CheckFriendsAvailability>|
        r.step matches Step::Ask(m, request) ==> m.asking(request);
    runs_keep(faults, n, begun(first, t), asked, kept);
    let shown = last.step->Done_0->Ok_0.available_friends@;
    if asked.step->Ask_0 is Users {
        let users = reply->Users_0@;
        assert(names_shown(shown) =~= names_of(users)) by {
            assert forall|i: int| 0 <= i < users.len() implies names_shown(shown)[i] == names_of(
                users,
            )[i] by {
                assert(shows_user(users[i], shown[i]));
            }
        }
    }
}

/// A user who asks whether their own day is taken, and whether they are free on
/// it, gets answers that agree, or is refused both for the same reason.
pub proof fn own_answers_agree(
    n: nat,
    k: nat,
    t: Tables,
    payload: IsBusyRequest,
    q: CheckAvailabilityQuery,
    first: Step<IsBusy, bool>,
    last: Running<IsBusy>,
    free_first: Step<CheckUserAvailability, UserAvailabilityResponse>,
    free_last: Running<CheckUserAvailability>,
)
    requires
        payload.date@ == q.date@,
        IsBusy::begun(payload, first),
        first matches Step::Ask(m, request) ==> m.asking(request),
        runs(false, n, begun(first, t), last),
        last.step is Done,
        match named_day(q.date@) {
            None => free_first.refused(Refusal::InvalidDate),
            Some(day) => free_first matches Step::Ask(
                CheckUserAvailability::Day { me, date },
                _,
            ) && me == payload.id && date.ymd() == day,
        },
        free_first matches Step::Ask(m, request) ==> m.asking(request),
        runs(false, k, begun(free_first, t), free_last),
        free_last.step is Done,
    ensures
        match (last.step, free_last.step) {
            (Step::Done(Ok(busy)), Step::Done(Ok(shown))) => shown.is_available == !busy,
            (Step::Done(Err(why)), Step::Done(Err(other))) => why == other,
            _ => false,
        },
{
    is_busy_runs(n, t, payload.id, payload, first, last);
    check_user_availability_runs(k, t, payload.id, q, free_first, free_last);
}

/// A user is among those shown.
pub open spec fn is_shown(shown: Seq<UserDTO>, id: Id) -> bool {
    exists|i: int| 0 <= i < shown.len() && (#[trigger] shown[i]).id == id
}

/// A user who asks whether a friend's day is taken, and which friends are free on
/// it, gets answers that agree, or is refused both for the same reason.
pub proof fn answers_on_friends_agree(
    n: nat,
    k: nat,
    t: Tables,
    me: Id,
    payload: IsBusyRequest,
    q: CheckAvailabilityQuery,
    first: Step<IsBusy, bool>,
    last: Running<IsBusy>,
    free_first: Step<CheckFriendsAvailability, AvailableFriendsResponse>,
    free_last: Running<CheckFriendsAvailability>,
)
    requires
        t.keyed(),
        are_friends(t, me, payload.id),
        t.users.dom().contains(payload.id),
        payload.date@ == q.date@,
        if me == payload.id {
            IsBusy::begun(payload, first)
        } else {
            first.waits_at(IsBusy::Friend { me, payload })
        },
        first matches Step::Ask(m, request) ==> m.asking(request),
        runs(false, n, begun(first, t), last),
        last.step is Done,
        match named_day(q.date@) {
            None => free_first.refused(Refusal::InvalidDate),
            Some(day) => free_first matches Step::Ask(
                CheckFriendsAvailability::Friends { me: a, date },
                _,
            ) && a == me && date.ymd() == day,
        },
        free_first matches Step::Ask(m, request) ==> m.asking(request),
        runs(false, k, begun(free_first, t), free_last),
        free_last.step is Done,
    ensures
        match (last.step, free_last.step) {
            (Step::Done(Ok(busy)), Step::Done(Ok(shown))) => is_shown(
                shown.available_friends@,
                payload.id,
            ) <==> !busy,
            (Step::Done(Err(why)), Step::Done(Err(other))) => why == other,
            _ => false,
        },
{
    is_busy_runs(n, t, me, payload, first, last);
    check_friends_availability_runs(k, t, me, q, free_first, free_last);
    if last.step->Done_0 is Ok && free_last.step->Done_0 is Ok {
        let id = payload.id;
        let day = named_day(q.date@)->0;
        let free = |user: UserRow| are_friends(t, me, user.id) && !is_taken(t, user.id, day);
        let shown = free_last.step->Done_0->Ok_0.available_friends@;
        let users = choose|users: Seq<UserRow>|
            lists(t.users, free, users) && #[trigger] shows_users(users, shown);
        if is_shown(shown, id) {
            let i = choose|i: int| 0 <= i < shown.len() && (#[trigger] shown[i]).id == id;
            assert(shows_user(users[i], shown[i]));
            assert(free(users[i]));
        }
        if !is_taken(t, id, day) {
            assert(free(t.users[id]));
            let i = choose|i: int| 0 <= i < users.len() && (#[trigger] users[i]) == t.users[id];
            assert(shows_user(users[i], shown[i]));
        }
    }
}

} // verus!
