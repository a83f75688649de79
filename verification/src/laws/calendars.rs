//! Who sees a calendar, and what it shows.

use crate::controllers::calendar_controller::{
    days_gone_by, invites_to, shows_busy_days, shows_invites, texts, BuildCalendar, GetCalendar,
};
use crate::controllers::dates::named_day;
use crate::controllers::event_controller::list::events_of;
use crate::controllers::models::{
    BusydayResponse, CalendarQuery, CalendarResponse, PendingInviteResponse,
};
use crate::entities::{BusydayRow, EventRow, Id, UserEventRow};
use crate::laws::facts::{are_friends, friend_found};
use crate::laws::listing::{has_part, part_ids, parts_name_events};
use crate::laws::reading::{lists_alike, reading_changes_nothing};
use crate::machine::{Machine, Step};
use crate::model::{
    begun, busydays_in_order, exchange, lists, runs, runs_keep, through, Running, Session, Tables,
};
use crate::refusal::Refusal;
use crate::store::{Order, Reply};
use crate::text::text_lt;
use crate::time::{calendar_day, day_lt, day_text, digit, two_digits, Date};
use vstd::prelude::*;

verus! {

/// The busy days of a user between two days.
pub open spec fn taken_between(user_id: Id, from: Date, to: Date) -> spec_fn(BusydayRow) -> bool {
    |row: BusydayRow| row.user_id == user_id && from.le(row.date) && row.date.le(to)
}

/// The invitations of a user that wait for an answer.
pub open spec fn unanswered(user_id: Id) -> spec_fn(UserEventRow) -> bool {
    |row: UserEventRow|
        row.user_id == user_id && row.role is Participant && row.response_status is Pending
}

/// The events between two days to which a user is invited without having
/// answered.
pub open spec fn inviting(t: Tables, user_id: Id, from: Date, to: Date) -> spec_fn(
    EventRow,
) -> bool {
    |event: EventRow|
        has_part(t, unanswered(user_id), event.id) && from.le(event.date) && event.date.le(to)
}

/// The busy days are those of the user, in order; those before `today` are
/// repeated as past.
pub open spec fn shows_days(
    t: Tables,
    user_id: Id,
    from: Date,
    to: Date,
    today: Date,
    rows: Seq<BusydayRow>,
    shown: CalendarResponse,
) -> bool {
    &&& lists(t.busydays, taken_between(user_id, from, to), rows)
    &&& busydays_in_order(rows, Order::Ascending)
    &&& shows_busy_days(rows, shown.busy_days@)
    &&& texts(shown.past_events@) == days_gone_by(rows, today)
}

/// The invitations are those of the user that wait for an answer.
pub open spec fn shows_waiting(
    t: Tables,
    user_id: Id,
    from: Date,
    to: Date,
    invites: Seq<PendingInviteResponse>,
) -> bool {
    exists|events: Seq<EventRow>|
        {
            &&& lists(t.events, inviting(t, user_id, from, to), events)
            &&& #[trigger] shows_invites(events, invites)
        }
}

/// A calendar of a user, as it is shown on the day `today`.
pub open spec fn shows_calendar_on(
    t: Tables,
    user_id: Id,
    from: Date,
    to: Date,
    today: Date,
    shown: CalendarResponse,
) -> bool {
    &&& shown.from@ == from.text()
    &&& shown.to@ == to.text()
    &&& exists|rows: Seq<BusydayRow>| #[trigger]
        shows_days(t, user_id, from, to, today, rows, shown)
    &&& shows_waiting(t, user_id, from, to, shown.pending_invites@)
}

/// A calendar of a user, as it is shown on the day that the clock gives.
pub open spec fn shows_stored_calendar(
    t: Tables,
    user_id: Id,
    from: Date,
    to: Date,
    shown: CalendarResponse,
) -> bool {
    exists|today: Date|
        today.on_the_clock() && calendar_day(today.ymd().0, today.ymd().1, today.ymd().2)
            && #[trigger] shows_calendar_on(
            t,
            user_id,
            from,
            to,
            today,
            shown,
        )
}

/// Why `me` does not see a calendar, if that is so.
pub open spec fn calendar_refusal(
    t: Tables,
    me: Id,
    user_id: Id,
    query: CalendarQuery,
) -> Option<Refusal> {
    if me != user_id && !are_friends(t, me, user_id) {
        Some(Refusal::CalendarForbidden)
    } else {
        match (named_day(query.from@), named_day(query.to@)) {
            (Some(a), Some(b)) => if day_lt(b, a) {
                Some(Refusal::StartAfterEnd)
            } else {
                None
            },
            _ => Some(Refusal::InvalidDate),
        }
    }
}

/// The days that a client asks for.
pub open spec fn asks_for(query: CalendarQuery, from: Date, to: Date) -> bool {
    named_day(query.from@) == Some(from.ymd()) && named_day(query.to@) == Some(to.ymd())
}

/// The busy days that will be shown are known.
pub open spec fn days_known(
    t: Tables,
    user_id: Id,
    from: Date,
    to: Date,
    busy_days: Vec<BusydayResponse>,
    past_events: Vec<String>,
) -> bool {
    exists|today: Date, rows: Seq<BusydayRow>|
        {
            &&& today.on_the_clock()
            &&& calendar_day(today.ymd().0, today.ymd().1, today.ymd().2)
            &&& lists(t.busydays, taken_between(user_id, from, to), rows)
            &&& busydays_in_order(rows, Order::Ascending)
            &&& #[trigger] shows_busy_days(rows, busy_days@)
            &&& texts(past_events@) == #[trigger] days_gone_by(rows, today)
        }
}

/// What holds while a calendar is shown.
pub open spec fn showing_calendar(
    t: Tables,
    me: Id,
    user_id: Id,
    query: CalendarQuery,
    r: Running<GetCalendar>,
) -> bool {
    let allowed = calendar_refusal(t, me, user_id, query) is None;
    &&& r.session == Session::to(t)
    &&& match r.step {
        Step::Ask(m, request) => {
            &&& m.asking(request)
            &&& match m {
                GetCalendar::Friend { me: a, user_id: b, query: q } => a == me && b == user_id && q
                    == query && me != user_id,
                GetCalendar::Build(BuildCalendar::Busy { user_id: b, from, to }) => b == user_id
                    && allowed && asks_for(query, from, to),
                GetCalendar::Build(
                    BuildCalendar::Pending { user_id: b, from, to, busy_days, past_events },
                ) => {
                    &&& b == user_id && allowed && asks_for(query, from, to)
                    &&& days_known(t, user_id, from, to, busy_days, past_events)
                },
                GetCalendar::Build(
                    BuildCalendar::Events { from, to, busy_days, past_events, among },
                ) => {
                    &&& allowed && asks_for(query, from, to)
                    &&& days_known(t, user_id, from, to, busy_days, past_events)
                    &&& part_ids(t, unanswered(user_id), among@)
                },
            }
        },
        Step::Done(Ok(shown)) => allowed && exists|from: Date, to: Date|
            asks_for(query, from, to) && #[trigger] shows_stored_calendar(
                t,
                user_id,
                from,
                to,
                shown,
            ),
        Step::Done(Err(why)) => calendar_refusal(t, me, user_id, query) == Some(why),
    }
}

proof fn calendar_begins(
    t: Tables,
    me: Id,
    user_id: Id,
    query: CalendarQuery,
    b: Running<GetCalendar>,
)
    requires
        me == user_id || are_friends(t, me, user_id),
        b.session == Session::to(t),
        GetCalendar::begun(user_id, query, b.step),
        b.step matches Step::Ask(m, request) ==> m.asking(request),
    ensures
        showing_calendar(t, me, user_id, query, b),
{
}

proof fn days_are_shown(
    t: Tables,
    user_id: Id,
    from: Date,
    to: Date,
    busy_days: Vec<BusydayResponse>,
    past_events: Vec<String>,
    shown: CalendarResponse,
)
    requires
        days_known(t, user_id, from, to, busy_days, past_events),
        shown.from@ == from.text(),
        shown.to@ == to.text(),
        shown.busy_days == busy_days,
        shown.past_events == past_events,
        shows_waiting(t, user_id, from, to, shown.pending_invites@),
    ensures
        shows_stored_calendar(t, user_id, from, to, shown),
{
    let (today, rows) = choose|today: Date, rows: Seq<BusydayRow>|
        {
            &&& today.on_the_clock()
            &&& calendar_day(today.ymd().0, today.ymd().1, today.ymd().2)
            &&& lists(t.busydays, taken_between(user_id, from, to), rows)
            &&& busydays_in_order(rows, Order::Ascending)
            &&& #[trigger] shows_busy_days(rows, busy_days@)
            &&& texts(past_events@) == #[trigger] days_gone_by(rows, today)
        };
    assert(shows_days(t, user_id, from, to, today, rows, shown));
    assert(shows_calendar_on(t, user_id, from, to, today, shown));
}

proof fn calendar_is_kept(
    t: Tables,
    me: Id,
    user_id: Id,
    query: CalendarQuery,
    a: Running<GetCalendar>,
    reply: Reply,
    b: Running<GetCalendar>,
)
    requires
        t.keyed(),
        showing_calendar(t, me, user_id, query, a),
        exchange(false, a, reply, b),
    ensures
        showing_calendar(t, me, user_id, query, b),
{
    let request = a.step->Ask_1;
    reading_changes_nothing(a.session, request, reply, b.session);
    match a.step->Ask_0 {
        GetCalendar::Friend { .. } => {
            friend_found(t, request->OneFriendship_0, reply->Friendship_0, me, user_id);
            if reply->Friendship_0 is Some {
                calendar_begins(t, me, user_id, query, b);
            }
        },
        GetCalendar::Build(BuildCalendar::Busy { user_id: _, from, to }) => {
            let rows = reply->Busydays_0@;
            lists_alike(
                t.busydays,
                through(request->AllBusydays_0),
                taken_between(user_id, from, to),
                rows,
            );
            let inner: Step<BuildCalendar, CalendarResponse> = match b.step {
                Step::Ask(GetCalendar::Build(n), q) => Step::Ask(n, q),
                Step::Done(x) => Step::Done(x),
                _ => arbitrary(),
            };
            let today = choose|today: Date|
                {
                    &&& today.on_the_clock()
                    &&& calendar_day(today.ymd().0, today.ymd().1, today.ymd().2)
                    &&& #[trigger] BuildCalendar::knows_busy_days(
                        user_id,
                        from,
                        to,
                        rows,
                        today,
                        inner,
                    )
                };
            let n = inner->Ask_0;
            assert(days_known(t, user_id, from, to, n->Pending_busy_days, n->Pending_past_events))
                by {
                assert(shows_busy_days(rows, n->Pending_busy_days@));
                assert(texts(n->Pending_past_events@) == days_gone_by(rows, today));
            }
        },
        GetCalendar::Build(
            BuildCalendar::Pending { user_id: _, from, to, busy_days, past_events },
        ) => {
            let rows = reply->UserEvents_0@;
            lists_alike(
                t.user_events,
                through(request->AllUserEvents_0),
                unanswered(user_id),
                rows,
            );
            parts_name_events(t, unanswered(user_id), rows);
            if rows.len() == 0 {
                let shown = b.step->Done_0->Ok_0;
                let none = Seq::<EventRow>::empty();
                assert(lists(t.events, inviting(t, user_id, from, to), none)) by {
                    assert forall|k: Id| #[trigger] t.events.dom().contains(k) implies !inviting(
                        t,
                        user_id,
                        from,
                        to,
                    )(t.events[k]) by {
                        assert(!events_of(rows).contains(t.events[k].id));
                    }
                }
                assert(shows_invites(none, shown.pending_invites@));
                days_are_shown(t, user_id, from, to, busy_days, past_events, shown);
            }
        },
        GetCalendar::Build(
            BuildCalendar::Events { from, to, busy_days, past_events, among },
        ) => {
            let cond = request->AllEvents_0;
            let events = reply->Events_0@;
            let wanted = inviting(t, user_id, from, to);
            assert forall|event: EventRow| #[trigger] through(cond)(event) == wanted(event) by {
                assert(cond.admits(event) == (among@.contains(event.id) && from.le(event.date)
                    && event.date.le(to)));
            }
            lists_alike(t.events, through(cond), wanted, events);
            let shown = b.step->Done_0->Ok_0;
            assert(shows_invites(events, shown.pending_invites@));
            days_are_shown(t, user_id, from, to, busy_days, past_events, shown);
        },
    }
}

/// A calendar is shown to the user whose it is and to friends, and to nobody
/// else: the days that are taken, in order, and the invitations that wait for an
/// answer, between the two days asked for. It leaves the tables as they are.
pub proof fn get_calendar_runs(
    n: nat,
    t: Tables,
    me: Id,
    user_id: Id,
    query: CalendarQuery,
    first: Step<GetCalendar, CalendarResponse>,
    last: Running<GetCalendar>,
)
    requires
        t.keyed(),
        if me == user_id {
            GetCalendar::begun(user_id, query, first)
        } else {
            first.waits_at(GetCalendar::Friend { me, user_id, query })
        },
        first matches Step::Ask(m, request) ==> m.asking(request),
        runs(false, n, begun(first, t), last),
    ensures
        last.step matches Step::Done(Ok(shown)) ==> {
            &&& calendar_refusal(t, me, user_id, query) is None
            &&& exists|from: Date, to: Date|
                asks_for(query, from, to) && #[trigger] shows_stored_calendar(
                    t,
                    user_id,
                    from,
                    to,
                    shown,
                )
        },
        last.step matches Step::Done(Err(why)) ==> calendar_refusal(t, me, user_id, query) == Some(
            why,
        ),
        last.session.stored == t,
{
    let kept = |r: Running<GetCalendar>| showing_calendar(t, me, user_id, query, r);
    if me == user_id {
        calendar_begins(t, me, user_id, query, begun(first, t));
    }
    assert forall|c: Running<GetCalendar>, reply: Reply, d: Running<GetCalendar>|
        kept(c) && #[trigger] exchange(false, c, reply, d) implies kept(d) by {
        calendar_is_kept(t, me, user_id, query, c, reply, d);
    }
    runs_keep(false, n, begun(first, t), last, kept);
}

/// Texts that begin with two digits each are in the order of these numbers, and
/// of what follows where they are the same.
proof fn digits_in_order(m: int, n: int, x: Seq<char>, y: Seq<char>)
    requires
        0 <= m <= 99,
        0 <= n <= 99,
    ensures
        text_lt(two_digits(m) + x, two_digits(n) + y) <==> m < n || (m == n && text_lt(x, y)),
{
    let a = two_digits(m) + x;
    let b = two_digits(n) + y;
    assert(a[0] == digit(m / 10) && b[0] == digit(n / 10));
    assert(a.drop_first()[0] == digit(m % 10) && b.drop_first()[0] == digit(n % 10));
    assert(a.drop_first().drop_first() =~= x);
    assert(b.drop_first().drop_first() =~= y);
    reveal_with_fuel(text_lt, 3);
}

proof fn after_a_dash(x: Seq<char>, y: Seq<char>)
    ensures
        text_lt(seq!['-'] + x, seq!['-'] + y) == text_lt(x, y),
{
    assert((seq!['-'] + x).drop_first() =~= x);
    assert((seq!['-'] + y).drop_first() =~= y);
}

/// For years of four digits, the texts of days are in the order of the days.
pub proof fn texts_in_order(a: (int, int, int), b: (int, int, int))
    requires
        calendar_day(a.0, a.1, a.2),
        calendar_day(b.0, b.1, b.2),
        0 <= a.0 <= 9999,
        0 <= b.0 <= 9999,
    ensures
        text_lt(day_text(a.0, a.1, a.2), day_text(b.0, b.1, b.2)) <==> day_lt(a, b),
{
    let end = Seq::<char>::empty();
    let da = two_digits(a.2) + end;
    let db = two_digits(b.2) + end;
    let ma = two_digits(a.1) + (seq!['-'] + da);
    let mb = two_digits(b.1) + (seq!['-'] + db);
    let ya = two_digits(a.0 % 100) + (seq!['-'] + ma);
    let yb = two_digits(b.0 % 100) + (seq!['-'] + mb);
    digits_in_order(a.2, b.2, end, end);
    after_a_dash(da, db);
    digits_in_order(a.1, b.1, seq!['-'] + da, seq!['-'] + db);
    after_a_dash(ma, mb);
    digits_in_order(a.0 % 100, b.0 % 100, seq!['-'] + ma, seq!['-'] + mb);
    digits_in_order(a.0 / 100, b.0 / 100, ya, yb);
    assert(day_text(a.0, a.1, a.2) =~= two_digits(a.0 / 100) + ya);
    assert(day_text(b.0, b.1, b.2) =~= two_digits(b.0 / 100) + yb);
}

/// The invitations of a calendar are in the order of the days of their events,
/// where the years have four digits.
pub proof fn invites_in_day_order(
    events: Seq<EventRow>,
    invites: Seq<PendingInviteResponse>,
    i: int,
    j: int,
    k: int,
    l: int,
)
    requires
        shows_invites(events, invites),
        0 <= i < j < invites.len(),
        0 <= k < events.len(),
        0 <= l < events.len(),
        invites_to(invites[i], events, k),
        invites_to(invites[j], events, l),
        calendar_day(events[k].date.ymd().0, events[k].date.ymd().1, events[k].date.ymd().2),
        calendar_day(events[l].date.ymd().0, events[l].date.ymd().1, events[l].date.ymd().2),
        0 <= events[k].date.ymd().0 <= 9999,
        0 <= events[l].date.ymd().0 <= 9999,
    ensures
        events[k].date.le(events[l].date),
{
    texts_in_order(events[l].date.ymd(), events[k].date.ymd());
    assert(!text_lt(invites[j].date@, invites[i].date@));
}

} // verus!
