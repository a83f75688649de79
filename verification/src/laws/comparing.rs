//! Calendars side by side.

use crate::controllers::calendar_controller::{
    days_gone_by, invites_from, invites_to, is_invited, last_of_its_id, shows_busy_days,
    shows_invites, texts, GetCalendar,
};
use crate::controllers::models::{
    BusydayResponse, CalendarQuery, CalendarResponse, PendingInviteResponse,
};
use crate::entities::{BusydayRow, EventRow, Id};
use crate::laws::calendars::{
    asks_for, get_calendar_runs, inviting, shows_calendar_on, shows_days, shows_stored_calendar,
    shows_waiting, taken_between,
};
use crate::laws::consistency::no_day_twice;
use crate::laws::facts::are_friends;
use crate::laws::sequences::{filter_by_key, same_keys, same_members};
use crate::machine::{Machine, Step};
use crate::model::{begun, busydays_in_order, lists, runs, Running, Tables};
use crate::refusal::Refusal;
use crate::store::Order;
use crate::text::{text_lt, text_lt_total};
use crate::time::{calendar_day, days_in_month, same_day, Date};
use vstd::prelude::*;

verus! {

/// A day of the calendar.
pub open spec fn is_real(date: Date) -> bool {
    calendar_day(date.ymd().0, date.ymd().1, date.ymd().2)
}

/// The days in the tables are days of the calendar.
pub open spec fn real_days(t: Tables) -> bool {
    &&& forall|k: Id| #[trigger] t.busydays.dom().contains(k) ==> is_real(t.busydays[k].date)
    &&& forall|k: Id| #[trigger] t.events.dom().contains(k) ==> is_real(t.events[k].date)
}

/// The day after a day.
pub open spec fn next_day(day: (int, int, int)) -> (int, int, int) {
    if day.2 < days_in_month(day.0, day.1) {
        (day.0, day.1, day.2 + 1)
    } else if day.1 < 12 {
        (day.0, day.1 + 1, 1)
    } else {
        (day.0 + 1, 1, 1)
    }
}

/// No day lies between a day and the next.
proof fn nothing_between(m: Date, n: Date, d: Date)
    requires
        is_real(m),
        n.ymd() == next_day(m.ymd()),
        is_real(d),
    ensures
        m.lt(d) <==> n.le(d),
{
}

/// What a calendar says of its busy days.
pub open spec fn busy_entries(shown: Seq<BusydayResponse>) -> Seq<
    (Id, Id, Seq<char>, Option<Id>),
> {
    shown.map_values(|b: BusydayResponse| (b.id, b.user_id, b.date@, b.event_id))
}

/// The dates of busy days, in their order.
pub open spec fn busy_dates(shown: Seq<BusydayResponse>) -> Seq<Seq<char>> {
    shown.map_values(|b: BusydayResponse| b.date@)
}

/// What a calendar says of its invitations.
pub open spec fn invite_entries(shown: Seq<PendingInviteResponse>) -> Seq<(Id, Seq<char>)> {
    shown.map_values(|i: PendingInviteResponse| (i.event_id, i.date@))
}

/// The dates of invitations, in their order.
pub open spec fn invite_dates(shown: Seq<PendingInviteResponse>) -> Seq<Seq<char>> {
    shown.map_values(|i: PendingInviteResponse| i.date@)
}

/// Two calendars that say the same: only the order of what they say of one day
/// may differ.
pub open spec fn same_calendar(a: CalendarResponse, b: CalendarResponse) -> bool {
    &&& a.from@ == b.from@
    &&& a.to@ == b.to@
    &&& busy_dates(a.busy_days@) == busy_dates(b.busy_days@)
    &&& busy_entries(a.busy_days@).to_multiset() == busy_entries(b.busy_days@).to_multiset()
    &&& texts(a.past_events@) == texts(b.past_events@)
    &&& invite_dates(a.pending_invites@) == invite_dates(b.pending_invites@)
    &&& invite_entries(a.pending_invites@).to_multiset() == invite_entries(
        b.pending_invites@,
    ).to_multiset()
}

/// The dates of busy days.
pub open spec fn dates_of(rows: Seq<BusydayRow>) -> Seq<Date> {
    rows.map_values(|row: BusydayRow| row.date)
}

/// Dates as texts.
pub open spec fn date_texts(dates: Seq<Date>) -> Seq<Seq<char>> {
    dates.map_values(|date: Date| date.text())
}

/// The dates that lie before a day.
pub open spec fn before(dates: Seq<Date>, today: Date) -> Seq<Date> {
    dates.filter(|date: Date| date.lt(today))
}

/// Which days have gone by depends on the dates alone.
proof fn gone_by_dates(rows: Seq<BusydayRow>, today: Date)
    ensures
        days_gone_by(rows, today) == date_texts(before(dates_of(rows), today)),
{
    let past = |row: BusydayRow| row.date.lt(today);
    let early = |date: Date| date.lt(today);
    let date_of = |row: BusydayRow| row.date;
    filter_by_key(rows, past, date_of, early);
    assert(days_gone_by(rows, today) =~= date_texts(rows.filter(past).map_values(date_of)));
}

/// The busy days are shown with their dates.
proof fn shown_dates(rows: Seq<BusydayRow>, shown: Seq<BusydayResponse>)
    requires
        shows_busy_days(rows, shown),
    ensures
        busy_dates(shown) == date_texts(dates_of(rows)),
{
    assert(busy_dates(shown) =~= date_texts(dates_of(rows)));
}

/// A listing holds no row twice.
proof fn busydays_once(
    t: Tables,
    passes: spec_fn(BusydayRow) -> bool,
    rows: Seq<BusydayRow>,
)
    requires
        t.keyed(),
        lists(t.busydays, passes, rows),
    ensures
        rows.no_duplicates(),
        forall|row: BusydayRow| #[trigger]
            rows.contains(row) <==> t.busydays.dom().contains(row.id) && t.busydays[row.id] == row
                && passes(row),
{
    assert forall|row: BusydayRow| #[trigger]
        rows.contains(row) <==> t.busydays.dom().contains(row.id) && t.busydays[row.id] == row
            && passes(row) by {
        if t.busydays.dom().contains(row.id) && t.busydays[row.id] == row && passes(row) {
            let i = choose|i: int|
                0 <= i < rows.len() && (#[trigger] rows[i]) == t.busydays[row.id];
            assert(rows.contains(row));
        }
    }
}

/// Two listings of the same busy days, both in order, have the same dates.
proof fn listed_dates(
    t: Tables,
    passes: spec_fn(BusydayRow) -> bool,
    x: Seq<BusydayRow>,
    y: Seq<BusydayRow>,
)
    requires
        t.keyed(),
        lists(t.busydays, passes, x),
        lists(t.busydays, passes, y),
        busydays_in_order(x, Order::Ascending),
        busydays_in_order(y, Order::Ascending),
    ensures
        dates_of(x) == dates_of(y),
{
    busydays_once(t, passes, x);
    busydays_once(t, passes, y);
    let key = |row: BusydayRow| row.date;
    let le = |a: Date, b: Date| a.le(b);
    assert forall|v: Date, w: Date| #[trigger] le(v, w) && le(w, v) implies v == w by {
        same_day(v, w);
    }
    same_keys(x, y, key, le);
}

/// Two listings of the same busy days are shown as the same days.
proof fn same_entries(
    t: Tables,
    passes: spec_fn(BusydayRow) -> bool,
    x: Seq<BusydayRow>,
    y: Seq<BusydayRow>,
    a: Seq<BusydayResponse>,
    b: Seq<BusydayResponse>,
)
    requires
        t.keyed(),
        lists(t.busydays, passes, x),
        lists(t.busydays, passes, y),
        shows_busy_days(x, a),
        shows_busy_days(y, b),
    ensures
        busy_entries(a).to_multiset() == busy_entries(b).to_multiset(),
{
    busydays_once(t, passes, x);
    busydays_once(t, passes, y);
    let ea = busy_entries(a);
    let eb = busy_entries(b);
    assert forall|i: int, j: int| 0 <= i < j < ea.len() implies ea[i] != ea[j] by {
        assert(x[i].id != x[j].id);
    }
    assert forall|i: int, j: int| 0 <= i < j < eb.len() implies eb[i] != eb[j] by {
        assert(y[i].id != y[j].id);
    }
    assert forall|e: (Id, Id, Seq<char>, Option<Id>)| #[trigger]
        ea.contains(e) <==> eb.contains(e) by {
        if ea.contains(e) {
            let i = choose|i: int| 0 <= i < ea.len() && ea[i] == e;
            assert(x.contains(x[i]));
            assert(y.contains(x[i]));
            let j = choose|j: int| 0 <= j < y.len() && y[j] == x[i];
            assert(eb[j] == e);
        }
        if eb.contains(e) {
            let i = choose|i: int| 0 <= i < eb.len() && eb[i] == e;
            assert(y.contains(y[i]));
            assert(x.contains(y[i]));
            let j = choose|j: int| 0 <= j < x.len() && x[j] == y[i];
            assert(ea[j] == e);
        }
    }
    same_members(ea, eb);
}

/// What the invitations of a calendar say: one for every event that passes, with
/// its date.
proof fn what_invites_say(
    t: Tables,
    passes: spec_fn(EventRow) -> bool,
    events: Seq<EventRow>,
    invites: Seq<PendingInviteResponse>,
)
    requires
        t.keyed(),
        lists(t.events, passes, events),
        shows_invites(events, invites),
    ensures
        invite_entries(invites).no_duplicates(),
        forall|e: (Id, Seq<char>)| #[trigger]
            invite_entries(invites).contains(e) <==> t.events.dom().contains(e.0) && passes(
                t.events[e.0],
            ) && e.1 == t.events[e.0].date.text(),
{
    let entries = invite_entries(invites);
    assert forall|i: int, j: int| 0 <= i < j < entries.len() implies entries[i] != entries[j] by {
        assert(invites[i].event_id != invites[j].event_id);
    }
    assert forall|e: (Id, Seq<char>)| #[trigger]
        entries.contains(e) <==> t.events.dom().contains(e.0) && passes(t.events[e.0]) && e.1
            == t.events[e.0].date.text() by {
        if entries.contains(e) {
            let i = choose|i: int| 0 <= i < entries.len() && entries[i] == e;
            assert(invites_from(invites[i], events, 0));
            reveal(invites_from);
            let k = choose|k: int|
                0 <= k && #[trigger] last_of_its_id(events, k) && invites_to(
                    invites[i],
                    events,
                    k,
                );
            assert(t.events.dom().contains(events[k].id));
        }
        if t.events.dom().contains(e.0) && passes(t.events[e.0]) && e.1
            == t.events[e.0].date.text() {
            let k = choose|k: int|
                0 <= k < events.len() && (#[trigger] events[k]) == t.events[e.0];
            assert(last_of_its_id(events, k)) by {
                assert forall|j: int| k < j < events.len() implies (#[trigger] events[j]).id
                    != events[k].id by {}
            }
            assert(is_invited(events, k, invites));
            reveal(is_invited);
            let i = choose|i: int|
                0 <= i < invites.len() && invites_to(#[trigger] invites[i], events, k);
            assert(entries[i] == e);
        }
    }
}

/// The invitations of two calendars of the same events are the same, and come on
/// the same dates.
proof fn same_invites(
    t: Tables,
    user_id: Id,
    from: Date,
    to: Date,
    x: Seq<PendingInviteResponse>,
    y: Seq<PendingInviteResponse>,
)
    requires
        t.keyed(),
        shows_waiting(t, user_id, from, to, x),
        shows_waiting(t, user_id, from, to, y),
    ensures
        invite_dates(x) == invite_dates(y),
        invite_entries(x).to_multiset() == invite_entries(y).to_multiset(),
{
    let p = inviting(t, user_id, from, to);
    let ex = choose|events: Seq<EventRow>|
        lists(t.events, p, events) && #[trigger] shows_invites(events, x);
    let ey = choose|events: Seq<EventRow>|
        lists(t.events, p, events) && #[trigger] shows_invites(events, y);
    what_invites_say(t, p, ex, x);
    what_invites_say(t, p, ey, y);
    let a = invite_entries(x);
    let b = invite_entries(y);
    same_members(a, b);
    let key = |e: (Id, Seq<char>)| e.1;
    let le = |v: Seq<char>, w: Seq<char>| !text_lt(w, v);
    assert forall|v: Seq<char>, w: Seq<char>| #[trigger] le(v, w) && le(w, v) implies v == w by {
        text_lt_total(v, w);
    }
    assert forall|i: int, j: int|
        #![trigger a[i], a[j]]
        0 <= i < j < a.len() implies le(key(a[i]), key(a[j])) by {
        assert(!text_lt(x[j].date@, x[i].date@));
    }
    assert forall|i: int, j: int|
        #![trigger b[i], b[j]]
        0 <= i < j < b.len() implies le(key(b[i]), key(b[j])) by {
        assert(!text_lt(y[j].date@, y[i].date@));
    }
    same_keys(a, b, key, le);
    assert(invite_dates(x) =~= a.map_values(key));
    assert(invite_dates(y) =~= b.map_values(key));
}

/// One user's calendar over the same days, on one day, says the same whoever
/// asks for it. If nobody is taken twice on one day, the busy days come in the
/// same order too.
pub proof fn calendars_agree(
    t: Tables,
    user_id: Id,
    from: Date,
    to: Date,
    today: Date,
    a: CalendarResponse,
    b: CalendarResponse,
)
    requires
        t.keyed(),
        shows_calendar_on(t, user_id, from, to, today, a),
        shows_calendar_on(t, user_id, from, to, today, b),
    ensures
        same_calendar(a, b),
        no_day_twice(t.busydays) ==> busy_entries(a.busy_days@) == busy_entries(b.busy_days@),
{
    let p = taken_between(user_id, from, to);
    let x = choose|rows: Seq<BusydayRow>| #[trigger]
        shows_days(t, user_id, from, to, today, rows, a);
    let y = choose|rows: Seq<BusydayRow>| #[trigger]
        shows_days(t, user_id, from, to, today, rows, b);
    listed_dates(t, p, x, y);
    shown_dates(x, a.busy_days@);
    shown_dates(y, b.busy_days@);
    gone_by_dates(x, today);
    gone_by_dates(y, today);
    same_entries(t, p, x, y, a.busy_days@, b.busy_days@);
    busydays_once(t, p, x);
    busydays_once(t, p, y);
    let ea = busy_entries(a.busy_days@);
    let eb = busy_entries(b.busy_days@);
    same_invites(t, user_id, from, to, a.pending_invites@, b.pending_invites@);
    if no_day_twice(t.busydays) {
        assert forall|i: int| 0 <= i < ea.len() implies ea[i] == eb[i] by {
            assert(dates_of(x)[i] == dates_of(y)[i]);
            assert(t.busydays.dom().contains(x[i].id) && t.busydays.dom().contains(y[i].id));
        }
        assert(dates_of(x).len() == dates_of(y).len());
        assert(ea =~= eb);
    }
}

/// A friend sees the calendar that its owner sees: the same refusal, or, on the
/// same day, the same calendar. Anybody else is refused, whatever the days asked
/// for are.
pub proof fn friends_see_the_owners_calendar(
    n: nat,
    k: nat,
    t: Tables,
    me: Id,
    user_id: Id,
    query: CalendarQuery,
    first: Step<GetCalendar, CalendarResponse>,
    last: Running<GetCalendar>,
    own_first: Step<GetCalendar, CalendarResponse>,
    own_last: Running<GetCalendar>,
)
    requires
        t.keyed(),
        if me == user_id {
            GetCalendar::begun(user_id, query, first)
        } else {
            first.waits_at(GetCalendar::Friend { me, user_id, query })
        },
        first matches Step::Ask(m, request) ==> m.asking(request),
        runs(false, n, begun(first, t), last),
        last.step is Done,
        GetCalendar::begun(user_id, query, own_first),
        own_first matches Step::Ask(m, request) ==> m.asking(request),
        runs(false, k, begun(own_first, t), own_last),
        own_last.step is Done,
    ensures
        last.step.refused(Refusal::CalendarForbidden) <==> me != user_id && !are_friends(
            t,
            me,
            user_id,
        ),
        me == user_id || are_friends(t, me, user_id) ==> match (last.step, own_last.step) {
            (Step::Done(Ok(shown)), Step::Done(Ok(own))) => exists|
                from: Date,
                to: Date,
                today: Date,
                own_today: Date,
            |
                {
                    &&& asks_for(query, from, to)
                    &&& is_real(today) && is_real(own_today)
                    &&& today.on_the_clock() && own_today.on_the_clock()
                    &&& #[trigger] shows_calendar_on(t, user_id, from, to, today, shown)
                    &&& #[trigger] shows_calendar_on(t, user_id, from, to, own_today, own)
                    &&& today == own_today ==> same_calendar(shown, own)
                },
            (Step::Done(Err(why)), Step::Done(Err(own))) => why == own,
            _ => false,
        },
{
    get_calendar_runs(n, t, me, user_id, query, first, last);
    get_calendar_runs(k, t, user_id, user_id, query, own_first, own_last);
    if last.step->Done_0 is Ok && own_last.step->Done_0 is Ok {
        let shown = last.step->Done_0->Ok_0;
        let own = own_last.step->Done_0->Ok_0;
        let (from, to) = choose|from: Date, to: Date|
            asks_for(query, from, to) && #[trigger] shows_stored_calendar(
                t,
                user_id,
                from,
                to,
                shown,
            );
        let (own_from, own_to) = choose|from: Date, to: Date|
            asks_for(query, from, to) && #[trigger] shows_stored_calendar(
                t,
                user_id,
                from,
                to,
                own,
            );
        same_day(from, own_from);
        same_day(to, own_to);
        let today = choose|today: Date|
            today.on_the_clock() && is_real(today) && #[trigger] shows_calendar_on(
                t,
                user_id,
                from,
                to,
                today,
                shown,
            );
        let own_today = choose|today: Date|
            today.on_the_clock() && is_real(today) && #[trigger] shows_calendar_on(
                t,
                user_id,
                from,
                to,
                today,
                own,
            );
        if today == own_today {
            calendars_agree(t, user_id, from, to, today, shown, own);
        }
    }
}

/// The busy days over two ranges that meet, one after the other, are those over
/// both.
proof fn busy_days_join(
    t: Tables,
    user_id: Id,
    from: Date,
    mid: Date,
    next: Date,
    to: Date,
    x: Seq<BusydayRow>,
    y: Seq<BusydayRow>,
)
    requires
        t.keyed(),
        real_days(t),
        is_real(mid),
        next.ymd() == next_day(mid.ymd()),
        from.le(mid),
        next.le(to),
        lists(t.busydays, taken_between(user_id, from, mid), x),
        lists(t.busydays, taken_between(user_id, next, to), y),
        busydays_in_order(x, Order::Ascending),
        busydays_in_order(y, Order::Ascending),
    ensures
        lists(t.busydays, taken_between(user_id, from, to), x + y),
        busydays_in_order(x + y, Order::Ascending),
{
    let p = taken_between(user_id, from, mid);
    let q = taken_between(user_id, next, to);
    let r = taken_between(user_id, from, to);
    let z = x + y;
    assert forall|k: Id| #[trigger] t.busydays.dom().contains(k) implies {
        &&& r(t.busydays[k]) <==> p(t.busydays[k]) || q(t.busydays[k])
        &&& !(p(t.busydays[k]) && q(t.busydays[k]))
    } by {
        nothing_between(mid, next, t.busydays[k].date);
    }
    assert forall|i: int| 0 <= i < x.len() implies p(#[trigger] x[i]) && t.busydays.dom().contains(
        x[i].id,
    ) && t.busydays[x[i].id] == x[i] by {}
    assert forall|i: int| 0 <= i < y.len() implies q(#[trigger] y[i]) && t.busydays.dom().contains(
        y[i].id,
    ) && t.busydays[y[i].id] == y[i] by {}
    assert(forall|i: int|
        0 <= i < z.len() ==> #[trigger] z[i] == if i < x.len() { x[i] } else { y[i - x.len()] });
    assert forall|i: int, j: int|
        #![trigger z[i], z[j]]
        0 <= i < j < z.len() implies z[i].id != z[j].id && z[i].date.le(z[j].date) by {
        if i < x.len() && j >= x.len() {
            nothing_between(mid, next, x[i].date);
            nothing_between(mid, next, y[j - x.len()].date);
        }
    }
    assert forall|k: Id| #[trigger] t.busydays.dom().contains(k) && r(t.busydays[k]) implies exists|
        i: int,
    | 0 <= i < z.len() && (#[trigger] z[i]) == t.busydays[k] by {
        if p(t.busydays[k]) {
            let i = choose|i: int| 0 <= i < x.len() && (#[trigger] x[i]) == t.busydays[k];
            assert(z[i] == t.busydays[k]);
        } else {
            let i = choose|i: int| 0 <= i < y.len() && (#[trigger] y[i]) == t.busydays[k];
            assert(z[i + x.len()] == t.busydays[k]);
        }
    }
}

/// The invitations over two ranges that meet are those over both, and no event
/// is among both.
proof fn invites_join(
    t: Tables,
    user_id: Id,
    from: Date,
    mid: Date,
    next: Date,
    to: Date,
    x: Seq<PendingInviteResponse>,
    y: Seq<PendingInviteResponse>,
    z: Seq<PendingInviteResponse>,
)
    requires
        t.keyed(),
        real_days(t),
        is_real(mid),
        next.ymd() == next_day(mid.ymd()),
        from.le(mid),
        next.le(to),
        shows_waiting(t, user_id, from, mid, x),
        shows_waiting(t, user_id, next, to, y),
        shows_waiting(t, user_id, from, to, z),
    ensures
        invite_entries(z).to_multiset() == (invite_entries(x) + invite_entries(y)).to_multiset(),
        forall|i: int, j: int|
            0 <= i < x.len() && 0 <= j < y.len() ==> (#[trigger] x[i]).event_id != (
            #[trigger] y[j]).event_id,
{
    let p = inviting(t, user_id, from, mid);
    let q = inviting(t, user_id, next, to);
    let r = inviting(t, user_id, from, to);
    let ex = choose|events: Seq<EventRow>|
        lists(t.events, p, events) && #[trigger] shows_invites(events, x);
    let ey = choose|events: Seq<EventRow>|
        lists(t.events, q, events) && #[trigger] shows_invites(events, y);
    let ez = choose|events: Seq<EventRow>|
        lists(t.events, r, events) && #[trigger] shows_invites(events, z);
    what_invites_say(t, p, ex, x);
    what_invites_say(t, q, ey, y);
    what_invites_say(t, r, ez, z);
    let a = invite_entries(x);
    let b = invite_entries(y);
    let c = invite_entries(z);
    let ab = a + b;
    assert forall|k: Id| #[trigger] t.events.dom().contains(k) implies {
        &&& r(t.events[k]) <==> p(t.events[k]) || q(t.events[k])
        &&& !(p(t.events[k]) && q(t.events[k]))
    } by {
        nothing_between(mid, next, t.events[k].date);
    }
    assert forall|i: int, j: int| 0 <= i < x.len() && 0 <= j < y.len() implies (
    #[trigger] x[i]).event_id != (#[trigger] y[j]).event_id by {
        assert(a.contains(a[i]) && b.contains(b[j]));
        assert(a[i].0 == x[i].event_id && b[j].0 == y[j].event_id);
    }
    assert forall|e: (Id, Seq<char>)| #[trigger] c.contains(e) <==> ab.contains(e) by {
        if ab.contains(e) {
            let i = choose|i: int| 0 <= i < ab.len() && ab[i] == e;
            if i < a.len() {
                assert(a[i] == e);
                assert(a.contains(e));
            } else {
                assert(b[i - a.len()] == e);
                assert(b.contains(e));
            }
        }
        if a.contains(e) {
            let i = choose|i: int| 0 <= i < a.len() && a[i] == e;
            assert(ab[i] == e);
        }
        if b.contains(e) {
            let i = choose|i: int| 0 <= i < b.len() && b[i] == e;
            assert(ab[i + a.len()] == e);
        }
        if c.contains(e) {
            assert(a.contains(e) || b.contains(e));
        }
    }
    assert forall|i: int, j: int| 0 <= i < j < ab.len() implies ab[i] != ab[j] by {
        if i < a.len() && j >= a.len() {
            assert(x[i].event_id != y[j - a.len()].event_id);
        } else if j < a.len() {
            assert(a[i] != a[j]);
        } else {
            assert(b[i - a.len()] != b[j - a.len()]);
        }
    }
    same_members(c, ab);
}

/// A calendar over two ranges of days that meet is the one over the first range
/// followed by the one over the second: the busy days and the past days in
/// order, the invitations up to their order, and no event is in both.
pub proof fn calendars_join(
    t: Tables,
    user_id: Id,
    from: Date,
    mid: Date,
    next: Date,
    to: Date,
    today: Date,
    a: CalendarResponse,
    b: CalendarResponse,
    c: CalendarResponse,
)
    requires
        t.keyed(),
        real_days(t),
        is_real(mid),
        is_real(to),
        next.ymd() == next_day(mid.ymd()),
        from.le(mid),
        mid.lt(to),
        shows_calendar_on(t, user_id, from, mid, today, a),
        shows_calendar_on(t, user_id, next, to, today, b),
        shows_calendar_on(t, user_id, from, to, today, c),
    ensures
        busy_dates(c.busy_days@) == busy_dates(a.busy_days@) + busy_dates(b.busy_days@),
        busy_entries(c.busy_days@).to_multiset() == (busy_entries(a.busy_days@) + busy_entries(
            b.busy_days@,
        )).to_multiset(),
        texts(c.past_events@) == texts(a.past_events@) + texts(b.past_events@),
        invite_entries(c.pending_invites@).to_multiset() == (invite_entries(a.pending_invites@)
            + invite_entries(b.pending_invites@)).to_multiset(),
        forall|i: int, j: int|
            0 <= i < a.pending_invites@.len() && 0 <= j < b.pending_invites@.len() ==> (
            #[trigger] a.pending_invites@[i]).event_id != (
            #[trigger] b.pending_invites@[j]).event_id,
{
    nothing_between(mid, next, to);
    let x = choose|rows: Seq<BusydayRow>| #[trigger]
        shows_days(t, user_id, from, mid, today, rows, a);
    let y = choose|rows: Seq<BusydayRow>| #[trigger]
        shows_days(t, user_id, next, to, today, rows, b);
    let z = choose|rows: Seq<BusydayRow>| #[trigger]
        shows_days(t, user_id, from, to, today, rows, c);
    busy_days_join(t, user_id, from, mid, next, to, x, y);
    listed_dates(t, taken_between(user_id, from, to), z, x + y);
    let both = a.busy_days@ + b.busy_days@;
    same_entries(t, taken_between(user_id, from, to), z, x + y, c.busy_days@, both);
    assert(busy_entries(both) =~= busy_entries(a.busy_days@) + busy_entries(b.busy_days@));
    shown_dates(x, a.busy_days@);
    shown_dates(y, b.busy_days@);
    shown_dates(z, c.busy_days@);
    gone_by_dates(x, today);
    gone_by_dates(y, today);
    gone_by_dates(z, today);
    let early = |date: Date| date.lt(today);
    assert(dates_of(z) =~= dates_of(x) + dates_of(y));
    Seq::filter_distributes_over_add(dates_of(x), dates_of(y), early);
    assert(before(dates_of(z), today) == before(dates_of(x), today) + before(
        dates_of(y),
        today,
    ));
    assert(date_texts(dates_of(z)) =~= date_texts(dates_of(x)) + date_texts(dates_of(y)));
    assert(date_texts(before(dates_of(z), today)) =~= date_texts(before(dates_of(x), today))
        + date_texts(before(dates_of(y), today)));
    invites_join(
        t,
        user_id,
        from,
        mid,
        next,
        to,
        a.pending_invites@,
        b.pending_invites@,
        c.pending_invites@,
    );
}

} // verus!
