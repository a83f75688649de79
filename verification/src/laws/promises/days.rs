//! What is told of days: whether they are taken, and what a calendar shows.

use crate::controllers::calendar_controller::{
    days_gone_by, get_my_calendar, get_user_calendar, invites_from, invites_to, is_busy,
    is_invited, last_of_its_id, shows_invites, texts, GetCalendar, IsBusy,
};
use crate::controllers::dates::named_day;
use crate::controllers::event_controller::availability::{
    check_friends_availability, check_user_availability, CheckAvailabilityQuery,
    CheckFriendsAvailability, CheckUserAvailability,
};
use crate::controllers::friendship_controller::{shows_user, shows_users};
use crate::controllers::models::{
    AuthUser, AvailableFriendsResponse, CalendarQuery, CalendarResponse, IsBusyRequest,
    PendingInviteResponse, UserAvailabilityResponse,
};
use crate::entities::{BusydayRow, EventRow, Id, UserRow};
use crate::laws::availability::{
    check_friends_availability_runs, check_user_availability_runs, is_busy_runs,
};
use crate::laws::calendars::{
    asks_for, get_calendar_runs, inviting, shows_calendar_on, shows_days, shows_stored_calendar,
    taken_between, unanswered,
};
use crate::laws::facts::{are_friends, is_taken};
use crate::laws::listing::has_part;
use crate::machine::{Machine, Step};
use crate::model::{begun, busydays_in_order, lists, runs, Running, Tables};
use crate::store::Order;
use crate::text::text_lt;
use crate::time::{calendar_day, day_lt, day_text, same_day, Date};
use vstd::prelude::*;

verus! {

/// A user is free on a day exactly if none of the user's busy days is on it. A text
/// that names no day is refused; a text that prints a day names it.
pub proof fn own_day_is_free_if_no_row_takes_it(
    n: nat,
    t: Tables,
    auth: AuthUser,
    q: CheckAvailabilityQuery,
    d: Date,
    first: Step<CheckUserAvailability, UserAvailabilityResponse>,
    last: Running<CheckUserAvailability>,
)
    requires
        t.keyed(),
        call_ensures(check_user_availability, (auth, q), first),
        runs(false, n, begun(first, t), last),
        last.step is Done,
    ensures
        last.session.stored == t,
        calendar_day(d.ymd().0, d.ymd().1, d.ymd().2) && q.date@ == day_text(
            d.ymd().0,
            d.ymd().1,
            d.ymd().2,
        ) ==> named_day(q.date@) == Some(d.ymd()),
        match (named_day(q.date@), last.step) {
            (Some(day), Step::Done(Ok(shown))) => shown.is_available <==> forall|k: Id| #[trigger]
                t.busydays.dom().contains(k) ==> !(t.busydays[k].user_id == auth.user_id
                    && t.busydays[k].date.ymd() == day),
            (None, Step::Done(Err(why))) => why is InvalidDate,
            _ => false,
        },
{
    check_user_availability_runs(n, t, auth.user_id, q, first, last);
    assert(d.text() == day_text(d.ymd().0, d.ymd().1, d.ymd().2));
}

/// Whether a user's day is taken is told to the user and to friends: it is exactly if
/// one of the user's busy days is on it. Others are refused, whatever the text is; and
/// a text that names no day is.
pub proof fn a_day_is_busy_if_a_row_takes_it(
    n: nat,
    t: Tables,
    auth: AuthUser,
    payload: IsBusyRequest,
    first: Step<IsBusy, bool>,
    last: Running<IsBusy>,
)
    requires
        t.keyed(),
        call_ensures(is_busy, (auth, payload), first),
        runs(false, n, begun(first, t), last),
        last.step is Done,
    ensures
        last.session.stored == t,
        ({
            let allowed = auth.user_id == payload.id || exists|k: Id| #[trigger]
                t.friendships.dom().contains(k) && t.friendships[k].status is Accepted && ((
                t.friendships[k].user_id == auth.user_id && t.friendships[k].friend_id
                    == payload.id) || (t.friendships[k].user_id == payload.id
                    && t.friendships[k].friend_id == auth.user_id));
            match last.step {
                Step::Done(Ok(busy)) => allowed && (named_day(payload.date@) matches Some(day)
                    && (busy <==> exists|k: Id| #[trigger]
                    t.busydays.dom().contains(k) && t.busydays[k].user_id == payload.id
                        && t.busydays[k].date.ymd() == day)),
                Step::Done(Err(why)) => if allowed {
                    named_day(payload.date@) is None && why is InvalidDate
                } else {
                    why is AvailabilityForbidden
                },
                _ => false,
            }
        }),
{
    is_busy_runs(n, t, auth.user_id, payload, first, last);
}

/// The friends who are free on a day are exactly the known users with whom there is an
/// accepted friendship and who have no busy day on it: each once, with the fields of
/// its row.
pub proof fn free_friends_have_no_row_on_the_day(
    n: nat,
    t: Tables,
    auth: AuthUser,
    q: CheckAvailabilityQuery,
    first: Step<CheckFriendsAvailability, AvailableFriendsResponse>,
    last: Running<CheckFriendsAvailability>,
)
    requires
        t.keyed(),
        call_ensures(check_friends_availability, (auth, q), first),
        runs(false, n, begun(first, t), last),
        last.step is Done,
    ensures
        last.session.stored == t,
        match (named_day(q.date@), last.step) {
            (Some(day), Step::Done(Ok(reply))) => {
                let me = auth.user_id;
                let shown = reply.available_friends@;
                &&& forall|i: int, j: int|
                    0 <= i < j < shown.len() ==> (#[trigger] shown[i]).id != (
                    #[trigger] shown[j]).id
                &&& forall|i: int|
                    0 <= i < shown.len() ==> {
                        &&& t.users.dom().contains((#[trigger] shown[i]).id)
                        &&& shown[i].username == t.users[shown[i].id].username
                        &&& shown[i].avatar_url == t.users[shown[i].id].avatar_url
                        &&& shown[i].bio == t.users[shown[i].id].bio
                    }
                &&& forall|id: Id| #[trigger]
                    t.users.dom().contains(id) ==> ((exists|i: int|
                        0 <= i < shown.len() && (#[trigger] shown[i]).id == id) <==> {
                        &&& exists|k: Id| #[trigger]
                            t.friendships.dom().contains(k) && t.friendships[k].status is Accepted
                                && ((t.friendships[k].user_id == me && t.friendships[k].friend_id
                                == id) || (t.friendships[k].user_id == id
                                && t.friendships[k].friend_id == me))
                        &&& forall|k: Id| #[trigger]
                            t.busydays.dom().contains(k) ==> !(t.busydays[k].user_id == id
                                && t.busydays[k].date.ymd() == day)
                    })
            },
            (None, Step::Done(Err(why))) => why is InvalidDate,
            _ => false,
        },
{
    let me = auth.user_id;
    check_friends_availability_runs(n, t, me, q, first, last);
    if named_day(q.date@) is Some {
        let day = named_day(q.date@)->0;
        let free = |user: UserRow| are_friends(t, me, user.id) && !is_taken(t, user.id, day);
        let shown = last.step->Done_0->Ok_0.available_friends@;
        let users = choose|users: Seq<UserRow>|
            lists(t.users, free, users) && #[trigger] shows_users(users, shown);
        assert forall|i: int| 0 <= i < shown.len() implies {
            &&& (#[trigger] shown[i]).id == users[i].id
            &&& t.users.dom().contains(shown[i].id)
            &&& t.users[shown[i].id] == users[i]
            &&& shows_user(users[i], shown[i])
            &&& free(users[i])
        } by {
            assert(shows_user(users[i], shown[i]));
            assert(t.users.dom().contains(users[i].id));
        }
        assert forall|i: int, j: int| 0 <= i < j < shown.len() implies (#[trigger] shown[i]).id
            != (#[trigger] shown[j]).id by {
            assert(users[i].id != users[j].id);
        }
        assert forall|id: Id| #[trigger] t.users.dom().contains(id) implies ((exists|i: int|
            0 <= i < shown.len() && (#[trigger] shown[i]).id == id) <==> are_friends(t, me, id)
            && !is_taken(t, id, day)) by {
            if are_friends(t, me, id) && !is_taken(t, id, day) {
                assert(free(t.users[id]));
                let i = choose|i: int| 0 <= i < users.len() && (#[trigger] users[i]) == t.users[id];
                assert(shown[i].id == id);
            }
        }
    }
}

/// Of busy days in order, those before a day come first.
proof fn past_days_come_first(rows: Seq<BusydayRow>, today: Date) -> (m: int)
    requires
        busydays_in_order(rows, Order::Ascending),
    ensures
        0 <= m <= rows.len(),
        forall|i: int| 0 <= i < rows.len() ==> ((#[trigger] rows[i]).date.lt(today) <==> i < m),
        days_gone_by(rows, today).len() == m,
        forall|i: int|
            0 <= i < m ==> #[trigger] days_gone_by(rows, today)[i] == rows[i].date.text(),
    decreases rows.len(),
{
    reveal(Seq::filter);
    let past = |row: BusydayRow| row.date.lt(today);
    if rows.len() == 0 {
        0
    } else {
        let fewer = rows.drop_last();
        let last = rows.last();
        assert forall|i: int, j: int| 0 <= i < j < fewer.len() implies (
        #[trigger] fewer[i]).date.le((#[trigger] fewer[j]).date) by {
            assert(rows[i].date.le(rows[j].date));
        }
        let m = past_days_come_first(fewer, today);
        assert forall|i: int| 0 <= i < fewer.len() implies ((#[trigger] rows[i]).date.lt(today)
            <==> i < m) by {
            assert(fewer[i] == rows[i]);
        }
        if past(last) {
            assert(m == fewer.len()) by {
                if m < fewer.len() {
                    assert(!fewer[m].date.lt(today));
                    assert(rows[m].date.le(rows[rows.len() - 1].date));
                }
            }
            assert(rows.filter(past) == fewer.filter(past).push(last));
            assert(days_gone_by(rows, today) =~= days_gone_by(fewer, today).push(
                last.date.text(),
            ));
            m + 1
        } else {
            assert(rows.filter(past) == fewer.filter(past));
            m
        }
    }
}

/// The invitations of a calendar: one for each event that passes.
proof fn invites_say(
    t: Tables,
    passes: spec_fn(EventRow) -> bool,
    events: Seq<EventRow>,
    invites: Seq<PendingInviteResponse>,
)
    requires
        t.keyed(),
        lists(t.events, passes, events),
        shows_invites(events, invites),
    ensures
        forall|i: int|
            0 <= i < invites.len() ==> {
                &&& t.events.dom().contains((#[trigger] invites[i]).event_id)
                &&& passes(t.events[invites[i].event_id])
                &&& invites[i].date@ == t.events[invites[i].event_id].date.text()
            },
        forall|id: Id| #[trigger]
            t.events.dom().contains(id) && passes(t.events[id]) ==> exists|i: int|
                0 <= i < invites.len() && (#[trigger] invites[i]).event_id == id,
{
    assert forall|i: int| 0 <= i < invites.len() implies {
        &&& t.events.dom().contains((#[trigger] invites[i]).event_id)
        &&& passes(t.events[invites[i].event_id])
        &&& invites[i].date@ == t.events[invites[i].event_id].date.text()
    } by {
        assert(invites_from(invites[i], events, 0));
        reveal(invites_from);
        let k = choose|k: int|
            0 <= k && #[trigger] last_of_its_id(events, k) && invites_to(invites[i], events, k);
        assert(t.events.dom().contains(events[k].id));
    }
    assert forall|id: Id| #[trigger]
        t.events.dom().contains(id) && passes(t.events[id]) implies exists|i: int|
        0 <= i < invites.len() && (#[trigger] invites[i]).event_id == id by {
        let k = choose|k: int| 0 <= k < events.len() && (#[trigger] events[k]) == t.events[id];
        assert(last_of_its_id(events, k)) by {
            assert forall|j: int| k < j < events.len() implies (#[trigger] events[j]).id
                != events[k].id by {}
        }
        assert(is_invited(events, k, invites));
        reveal(is_invited);
        let i = choose|i: int|
            0 <= i < invites.len() && invites_to(#[trigger] invites[i], events, k);
        assert(invites[i].event_id == id);
    }
}

/// What a calendar over the days `from` to `to` shows, given the day `today`.
proof fn calendar_says(
    t: Tables,
    user_id: Id,
    from: Date,
    to: Date,
    today: Date,
    shown: CalendarResponse,
)
    requires
        t.keyed(),
        shows_calendar_on(t, user_id, from, to, today, shown),
    ensures
        shown.from@ == day_text(from.ymd().0, from.ymd().1, from.ymd().2),
        shown.to@ == day_text(to.ymd().0, to.ymd().1, to.ymd().2),
        forall|i: int|
            0 <= i < shown.busy_days@.len() ==> {
                let row = t.busydays[(#[trigger] shown.busy_days@[i]).id];
                &&& t.busydays.dom().contains(shown.busy_days@[i].id)
                &&& row.user_id == user_id
                &&& shown.busy_days@[i].user_id == row.user_id
                &&& shown.busy_days@[i].date@ == day_text(
                    row.date.ymd().0,
                    row.date.ymd().1,
                    row.date.ymd().2,
                )
                &&& shown.busy_days@[i].event_id == row.event_id
                &&& i < shown.past_events@.len() <==> day_lt(row.date.ymd(), today.ymd())
                &&& i < shown.past_events@.len() ==> shown.past_events@[i]@
                    == shown.busy_days@[i].date@
            },
        shown.past_events@.len() <= shown.busy_days@.len(),
        forall|i: int, j: int|
            0 <= i < j < shown.busy_days@.len() ==> {
                &&& (#[trigger] shown.busy_days@[i]).id != (#[trigger] shown.busy_days@[j]).id
                &&& !day_lt(
                    t.busydays[shown.busy_days@[j].id].date.ymd(),
                    t.busydays[shown.busy_days@[i].id].date.ymd(),
                )
            },
        forall|k: Id| #[trigger]
            t.busydays.dom().contains(k) && t.busydays[k].user_id == user_id ==> ((exists|i: int|
                0 <= i < shown.busy_days@.len() && (#[trigger] shown.busy_days@[i]).id == k)
                <==> !day_lt(t.busydays[k].date.ymd(), from.ymd()) && !day_lt(
                to.ymd(),
                t.busydays[k].date.ymd(),
            )),
        forall|i: int|
            0 <= i < shown.pending_invites@.len() ==> {
                let event = t.events[(#[trigger] shown.pending_invites@[i]).event_id];
                &&& t.events.dom().contains(shown.pending_invites@[i].event_id)
                &&& shown.pending_invites@[i].date@ == day_text(
                    event.date.ymd().0,
                    event.date.ymd().1,
                    event.date.ymd().2,
                )
            },
        forall|i: int, j: int|
            0 <= i < j < shown.pending_invites@.len() ==> {
                let a = #[trigger] shown.pending_invites@[i];
                let b = #[trigger] shown.pending_invites@[j];
                &&& a.event_id != b.event_id
                &&& !text_lt(b.date@, a.date@)
            },
        forall|id: Id| #[trigger]
            t.events.dom().contains(id) ==> ((exists|i: int|
                0 <= i < shown.pending_invites@.len() && (
                #[trigger] shown.pending_invites@[i]).event_id == id) <==> {
                &&& exists|k: Id| #[trigger]
                    t.user_events.dom().contains(k) && t.user_events[k].event_id == id
                        && t.user_events[k].user_id == user_id && t.user_events[k].role
                        is Participant && t.user_events[k].response_status is Pending
                &&& !day_lt(t.events[id].date.ymd(), from.ymd())
                &&& !day_lt(to.ymd(), t.events[id].date.ymd())
            }),
{
    let busy = shown.busy_days@;
    let p = taken_between(user_id, from, to);
    let rows = choose|rows: Seq<BusydayRow>| #[trigger]
        shows_days(t, user_id, from, to, today, rows, shown);
    let m = past_days_come_first(rows, today);
    assert(texts(shown.past_events@).len() == m);
    assert forall|i: int| 0 <= i < m implies (#[trigger] shown.past_events@[i])@
        == rows[i].date.text() by {
        assert(texts(shown.past_events@)[i] == days_gone_by(rows, today)[i]);
    }
    assert forall|i: int| 0 <= i < busy.len() implies {
        &&& (#[trigger] busy[i]).id == rows[i].id
        &&& t.busydays.dom().contains(busy[i].id)
        &&& t.busydays[busy[i].id] == rows[i]
        &&& p(rows[i])
        &&& i < m <==> rows[i].date.lt(today)
        &&& i < m ==> shown.past_events@[i]@ == rows[i].date.text()
    } by {
        assert(t.busydays.dom().contains(rows[i].id));
    }
    assert forall|i: int, j: int| 0 <= i < j < busy.len() implies {
        &&& (#[trigger] busy[i]).id != (#[trigger] busy[j]).id
        &&& rows[i].date.le(rows[j].date)
    } by {
        assert(rows[i].id != rows[j].id);
    }
    assert forall|k: Id| #[trigger]
        t.busydays.dom().contains(k) && t.busydays[k].user_id == user_id implies ((exists|i: int|
        0 <= i < busy.len() && (#[trigger] busy[i]).id == k) <==> p(t.busydays[k])) by {
        if p(t.busydays[k]) {
            let i = choose|i: int| 0 <= i < rows.len() && (#[trigger] rows[i]) == t.busydays[k];
            assert(busy[i].id == k);
        }
    }
    let invites = shown.pending_invites@;
    let q = inviting(t, user_id, from, to);
    let events = choose|events: Seq<EventRow>|
        lists(t.events, q, events) && #[trigger] shows_invites(events, invites);
    invites_say(t, q, events, invites);
    assert forall|id: Id| #[trigger] t.events.dom().contains(id) implies (q(t.events[id]) <==> {
        &&& exists|k: Id| #[trigger]
            t.user_events.dom().contains(k) && t.user_events[k].event_id == id
                && t.user_events[k].user_id == user_id && t.user_events[k].role is Participant
                && t.user_events[k].response_status is Pending
        &&& from.le(t.events[id].date) && t.events[id].date.le(to)
    }) by {
        assert(q(t.events[id]) <==> has_part(t, unanswered(user_id), id) && from.le(
            t.events[id].date,
        ) && t.events[id].date.le(to));
        if has_part(t, unanswered(user_id), id) {
            let k = choose|k: Id| #[trigger]
                t.user_events.dom().contains(k) && unanswered(user_id)(t.user_events[k])
                    && t.user_events[k].event_id == id;
            assert(t.user_events[k].user_id == user_id);
        }
    }
}

/// A calendar shows, over the days that are asked for: exactly the busy days of the
/// user, in order, each as it is stored; those before the day that the clock gives once
/// more as past, first of all; and exactly the events to which the user has an
/// invitation without an answer, each once with its date, in the order of the dates.
pub proof fn a_calendar_shows_the_rows_of_its_days(
    n: nat,
    t: Tables,
    auth: AuthUser,
    user_id: Id,
    query: CalendarQuery,
    from: Date,
    to: Date,
    first: Step<GetCalendar, CalendarResponse>,
    last: Running<GetCalendar>,
)
    requires
        t.keyed(),
        call_ensures(get_user_calendar, (auth, user_id, query), first) || user_id
            == auth.user_id && call_ensures(get_my_calendar, (auth, query), first),
        named_day(query.from@) == Some(from.ymd()),
        named_day(query.to@) == Some(to.ymd()),
        runs(false, n, begun(first, t), last),
        last.step matches Step::Done(Ok(_)),
    ensures
        exists|today: Date|
            #![trigger today.on_the_clock()]
            today.on_the_clock() && {
                &&& last.step matches Step::Done(Ok(shown))
                &&& shown.from@ == day_text(from.ymd().0, from.ymd().1, from.ymd().2)
                &&& shown.to@ == day_text(to.ymd().0, to.ymd().1, to.ymd().2)
                &&& shown.past_events@.len() <= shown.busy_days@.len()
                &&& forall|i: int|
                    0 <= i < shown.busy_days@.len() ==> {
                        let row = t.busydays[(#[trigger] shown.busy_days@[i]).id];
                        &&& t.busydays.dom().contains(shown.busy_days@[i].id)
                        &&& row.user_id == user_id
                        &&& shown.busy_days@[i].user_id == row.user_id
                        &&& shown.busy_days@[i].date@ == day_text(
                            row.date.ymd().0,
                            row.date.ymd().1,
                            row.date.ymd().2,
                        )
                        &&& shown.busy_days@[i].event_id == row.event_id
                        &&& i < shown.past_events@.len() <==> day_lt(row.date.ymd(), today.ymd())
                        &&& i < shown.past_events@.len() ==> shown.past_events@[i]@
                            == shown.busy_days@[i].date@
                    }
                &&& forall|i: int, j: int|
                    0 <= i < j < shown.busy_days@.len() ==> {
                        &&& (#[trigger] shown.busy_days@[i]).id != (
                        #[trigger] shown.busy_days@[j]).id
                        &&& !day_lt(
                            t.busydays[shown.busy_days@[j].id].date.ymd(),
                            t.busydays[shown.busy_days@[i].id].date.ymd(),
                        )
                    }
                &&& forall|k: Id| #[trigger]
                    t.busydays.dom().contains(k) && t.busydays[k].user_id == user_id ==> ((exists|
                        i: int,
                    |
                        0 <= i < shown.busy_days@.len() && (#[trigger] shown.busy_days@[i]).id
                            == k) <==> !day_lt(t.busydays[k].date.ymd(), from.ymd()) && !day_lt(
                        to.ymd(),
                        t.busydays[k].date.ymd(),
                    ))
                &&& forall|i: int|
                    0 <= i < shown.pending_invites@.len() ==> {
                        let event = t.events[(#[trigger] shown.pending_invites@[i]).event_id];
                        &&& t.events.dom().contains(shown.pending_invites@[i].event_id)
                        &&& shown.pending_invites@[i].date@ == day_text(
                            event.date.ymd().0,
                            event.date.ymd().1,
                            event.date.ymd().2,
                        )
                    }
                &&& forall|i: int, j: int|
                    0 <= i < j < shown.pending_invites@.len() ==> {
                        let a = #[trigger] shown.pending_invites@[i];
                        let b = #[trigger] shown.pending_invites@[j];
                        &&& a.event_id != b.event_id
                        &&& !text_lt(b.date@, a.date@)
                    }
                &&& forall|id: Id| #[trigger]
                    t.events.dom().contains(id) ==> ((exists|i: int|
                        0 <= i < shown.pending_invites@.len() && (
                        #[trigger] shown.pending_invites@[i]).event_id == id) <==> {
                        &&& exists|k: Id| #[trigger]
                            t.user_events.dom().contains(k) && t.user_events[k].event_id == id
                                && t.user_events[k].user_id == user_id && t.user_events[k].role
                                is Participant && t.user_events[k].response_status is Pending
                        &&& !day_lt(t.events[id].date.ymd(), from.ymd())
                        &&& !day_lt(to.ymd(), t.events[id].date.ymd())
                    })
            },
{
    get_calendar_runs(n, t, auth.user_id, user_id, query, first, last);
    let shown = last.step->Done_0->Ok_0;
    let (f, e) = choose|f: Date, e: Date|
        asks_for(query, f, e) && #[trigger] shows_stored_calendar(t, user_id, f, e, shown);
    same_day(f, from);
    same_day(e, to);
    let today = choose|today: Date|
        today.on_the_clock() && #[trigger] shows_calendar_on(t, user_id, from, to, today, shown);
    calendar_says(t, user_id, from, to, today, shown);
    assert(today.on_the_clock());
}

/// Who is shown a calendar, and who is refused: only the user and friends are shown
/// it; of them, those are refused who name no days, or a last day before the first. A
/// text that prints a day names it.
pub proof fn who_is_shown_a_calendar(
    n: nat,
    t: Tables,
    auth: AuthUser,
    user_id: Id,
    query: CalendarQuery,
    from: Date,
    to: Date,
    first: Step<GetCalendar, CalendarResponse>,
    last: Running<GetCalendar>,
)
    requires
        t.keyed(),
        call_ensures(get_user_calendar, (auth, user_id, query), first) || user_id
            == auth.user_id && call_ensures(get_my_calendar, (auth, query), first),
        runs(false, n, begun(first, t), last),
        last.step is Done,
    ensures
        last.session.stored == t,
        ({
            let allowed = auth.user_id == user_id || exists|k: Id| #[trigger]
                t.friendships.dom().contains(k) && t.friendships[k].status is Accepted && ((
                t.friendships[k].user_id == auth.user_id && t.friendships[k].friend_id == user_id)
                    || (t.friendships[k].user_id == user_id && t.friendships[k].friend_id
                    == auth.user_id));
            match (named_day(query.from@), named_day(query.to@), last.step) {
                (Some(a), Some(b), Step::Done(Ok(_))) => allowed && !day_lt(b, a),
                (_, _, Step::Done(Ok(_))) => false,
                (Some(a), Some(b), Step::Done(Err(why))) => if allowed {
                    day_lt(b, a) && why is StartAfterEnd
                } else {
                    why is CalendarForbidden
                },
                (_, _, Step::Done(Err(why))) => if allowed {
                    why is InvalidDate
                } else {
                    why is CalendarForbidden
                },
                _ => false,
            }
        }),
        user_id == auth.user_id && calendar_day(from.ymd().0, from.ymd().1, from.ymd().2)
            && calendar_day(to.ymd().0, to.ymd().1, to.ymd().2) && query.from@ == day_text(
            from.ymd().0,
            from.ymd().1,
            from.ymd().2,
        ) && query.to@ == day_text(to.ymd().0, to.ymd().1, to.ymd().2) ==> named_day(query.from@)
            == Some(from.ymd()) && named_day(query.to@) == Some(to.ymd()),
{
    get_calendar_runs(n, t, auth.user_id, user_id, query, first, last);
    assert(from.text() == day_text(from.ymd().0, from.ymd().1, from.ymd().2));
    assert(to.text() == day_text(to.ymd().0, to.ymd().1, to.ymd().2));
}

} // verus!
