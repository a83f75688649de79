//! Calendars: busy days, invitations, and days gone by.

use crate::controllers::dates::{named_day, parse_date, reads_back, reads_date};
use crate::controllers::event_controller::list::{event_ids, events_of};
use crate::controllers::event_controller::rules::{busy_on, ensure_day_is_free};
use crate::controllers::friends::{accepted_between, are_users_accepted_friends};
use crate::controllers::models::{
    AuthUser, BusydayResponse, CalendarQuery, CalendarResponse, IsBusyRequest,
    PendingInviteResponse,
};
use crate::entities::{
    BusydayRow, EventRow, Id, UserEventResponse, UserEventRole, UserEventRow,
};
use crate::machine::{steps_left, then_left, Machine, Step};
use crate::refusal::Refusal;
use crate::store::{BusydayTest, Cond, EventTest, Order, Reply, Request, UserEventTest};
use crate::text::{is_text_before, text_lt, text_lt_irreflexive, text_lt_transitive};
use crate::time::{calendar_day, day_lt, Date};
use vstd::prelude::*;

verus! {

/// Reads a date of the form `YYYY-MM-DD`.
pub fn parse_one_date(value: &str) -> (r: Result<Date, Refusal>)
    ensures
        reads_date(value@, r),
        reads_back(value@),
{
    parse_date(value)
}

/// Reads the two ends of a range of days.
pub fn parse_date_range(from: &str, to: &str) -> (r: Result<(Date, Date), Refusal>)
    ensures
        match (named_day(from@), named_day(to@)) {
            (Some(a), Some(b)) => match r {
                Ok(range) => range.0.ymd() == a && range.1.ymd() == b && range.0.le(range.1),
                Err(why) => why is StartAfterEnd && day_lt(b, a),
            },
            _ => r matches Err(why) && why is InvalidDate,
        },
        reads_back(from@),
        named_day(from@) is Some ==> reads_back(to@),
{
    let from_date = match parse_one_date(from) {
        Ok(date) => date,
        Err(why) => {
            return Err(why);
        },
    };
    let to_date = match parse_one_date(to) {
        Ok(date) => date,
        Err(why) => {
            return Err(why);
        },
    };
    if to_date.is_before(&from_date) {
        return Err(Refusal::StartAfterEnd);
    }
    Ok((from_date, to_date))
}

/// What is shown of busy days, one by one.
pub open spec fn shows_busy_days(rows: Seq<BusydayRow>, shown: Seq<BusydayResponse>) -> bool {
    &&& shown.len() == rows.len()
    &&& forall|i: int|
        0 <= i < rows.len() ==> {
            &&& (#[trigger] shown[i]).id == rows[i].id
            &&& shown[i].user_id == rows[i].user_id
            &&& shown[i].date@ == rows[i].date.text()
            &&& shown[i].event_id == rows[i].event_id
        }
}

/// The dates of those busy days that lie before `today`, in their order.
pub open spec fn days_gone_by(rows: Seq<BusydayRow>, today: Date) -> Seq<Seq<char>> {
    rows.filter(|row: BusydayRow| row.date.lt(today)).map_values(
        |row: BusydayRow| row.date.text(),
    )
}

/// The texts of strings.
pub open spec fn texts(strings: Seq<String>) -> Seq<Seq<char>> {
    strings.map_values(|s: String| s@)
}

fn busy_day_responses(rows: &Vec<BusydayRow>) -> (shown: Vec<BusydayResponse>)
    ensures
        shows_busy_days(rows@, shown@),
{
    let mut shown: Vec<BusydayResponse> = Vec::new();
    for i in 0..rows.len()
        invariant
            shows_busy_days(rows@.take(i as int), shown@),
    {
        let row = &rows[i];
        shown.push(
            BusydayResponse {
                id: row.id,
                user_id: row.user_id,
                date: row.date.to_string(),
                event_id: row.event_id,
            },
        );
    }
    assert(rows@.take(rows@.len() as int) == rows@);
    shown
}

fn past_days(rows: &Vec<BusydayRow>, today: Date) -> (days: Vec<String>)
    ensures
        texts(days@) == days_gone_by(rows@, today),
{
    let mut days: Vec<String> = Vec::new();
    let ghost past = |row: BusydayRow| row.date.lt(today);
    proof {
        reveal_with_fuel(Seq::<_>::filter, 1);
        assert(texts(days@) =~= days_gone_by(rows@.take(0), today));
    }
    for i in 0..rows.len()
        invariant
            past == (|row: BusydayRow| row.date.lt(today)),
            texts(days@) == days_gone_by(rows@.take(i as int), today),
    {
        let row = &rows[i];
        let ghost before = days@;
        if row.date.is_before(&today) {
            days.push(row.date.to_string());
        }
        proof {
            reveal_with_fuel(Seq::<_>::filter, 1);
            let seen = rows@.take(i as int);
            let more = rows@.take(i + 1);
            assert(more.drop_last() == seen);
            assert(more.last() == *row);
            if past(*row) {
                assert(more.filter(past) == seen.filter(past).push(*row));
                assert(texts(days@) =~= texts(before).push(row.date.text()));
                assert(days_gone_by(more, today) =~= days_gone_by(seen, today).push(
                    row.date.text(),
                ));
            } else {
                assert(more.filter(past) == seen.filter(past));
            }
        }
    }
    assert(rows@.take(rows@.len() as int) == rows@);
    days
}

/// The event at `k` is the last of `events` with its identifier.
pub open spec fn last_of_its_id(events: Seq<EventRow>, k: int) -> bool {
    &&& 0 <= k < events.len()
    &&& forall|j: int| k < j < events.len() ==> (#[trigger] events[j]).id != events[k].id
}

/// `invite` is the invitation to the event at `k`.
pub open spec fn invites_to(
    invite: PendingInviteResponse,
    events: Seq<EventRow>,
    k: int,
) -> bool {
    &&& invite.event_id == events[k].id
    &&& invite.date@ == events[k].date.text()
}

/// Invitations in the order of the texts of their dates.
pub open spec fn in_date_order(invites: Seq<PendingInviteResponse>) -> bool {
    forall|i: int, j: int|
        #![trigger invites[i], invites[j]]
        0 <= i < j < invites.len() ==> !text_lt(invites[j].date@, invites[i].date@)
}

/// `invite` is the invitation to an event from `n` on that is the last with its
/// identifier.
#[verifier::opaque]
pub open spec fn invites_from(
    invite: PendingInviteResponse,
    events: Seq<EventRow>,
    n: int,
) -> bool {
    exists|k: int| n <= k && #[trigger] last_of_its_id(events, k) && invites_to(invite, events, k)
}

/// One of `invites` is the invitation to the event at `k`.
#[verifier::opaque]
pub open spec fn is_invited(
    events: Seq<EventRow>,
    k: int,
    invites: Seq<PendingInviteResponse>,
) -> bool {
    exists|i: int| 0 <= i < invites.len() && invites_to(#[trigger] invites[i], events, k)
}

/// No event has two invitations.
pub open spec fn invites_once(invites: Seq<PendingInviteResponse>) -> bool {
    forall|i: int, j: int|
        #![trigger invites[i], invites[j]]
        0 <= i < j < invites.len() ==> invites[i].event_id != invites[j].event_id
}

/// The invitations to the events from `n` on.
pub open spec fn shows_invites_from(
    events: Seq<EventRow>,
    n: int,
    invites: Seq<PendingInviteResponse>,
) -> bool {
    &&& in_date_order(invites)
    &&& invites_once(invites)
    &&& forall|i: int| 0 <= i < invites.len() ==> invites_from(#[trigger] invites[i], events, n)
    &&& forall|k: int|
        n <= k && #[trigger] last_of_its_id(events, k) ==> is_invited(events, k, invites)
}

/// The invitations to `events`: one for each identifier, with the date of the
/// last event of that identifier, in the order of the dates.
pub open spec fn shows_invites(
    events: Seq<EventRow>,
    invites: Seq<PendingInviteResponse>,
) -> bool {
    shows_invites_from(events, 0, invites)
}

/// Of the events with one identifier, one is the last.
proof fn last_exists(events: Seq<EventRow>, j: int) -> (k: int)
    requires
        0 <= j < events.len(),
    ensures
        j <= k,
        last_of_its_id(events, k),
        events[k].id == events[j].id,
    decreases events.len() - j,
{
    if last_of_its_id(events, j) {
        j
    } else {
        let i = choose|i: int| j < i < events.len() && (#[trigger] events[i]).id == events[j].id;
        last_exists(events, i)
    }
}

/// Puts an invitation in its place, by the text of its date.
fn place(invites: &mut Vec<PendingInviteResponse>, invite: PendingInviteResponse) -> (at: usize)
    requires
        in_date_order(old(invites)@),
    ensures
        in_date_order(final(invites)@),
        at <= old(invites)@.len(),
        final(invites)@ == old(invites)@.insert(at as int, invite),
{
    let ghost before = invites@;
    let mut at: usize = 0;
    while at < invites.len() && !is_text_before(invite.date.as_str(), invites[at].date.as_str())
        invariant
            invites@ == before,
            at <= invites@.len(),
            forall|i: int|
                0 <= i < at ==> !text_lt(invite.date@, (#[trigger] invites@[i]).date@),
        decreases invites@.len() - at,
    {
        at = at + 1;
    }
    let ghost date = invite.date@;
    invites.insert(at, invite);
    proof {
        let after = invites@;
        assert(after == before.insert(at as int, invite));
        assert forall|i: int, j: int|
            #![trigger after[i], after[j]]
            0 <= i < j < after.len() implies !text_lt(after[j].date@, after[i].date@) by {
            let bi = if i < at { i } else { i - 1 };
            let bj = if j < at { j } else { j - 1 };
            assert(i != at ==> after[i] == before[bi]);
            assert(j != at ==> after[j] == before[bj]);
            if i == at {
                let first = before[at as int].date@;
                let other = before[bj].date@;
                assert(text_lt(date, first));
                if text_lt(other, date) {
                    text_lt_transitive(other, date, first);
                    if bj == at {
                        text_lt_irreflexive(first);
                    }
                }
            }
        }
    }
    at
}

/// An event whose identifier has an invitation already is not the last of it.
proof fn known_is_kept(events: Seq<EventRow>, n: int, j: int, invites: Seq<PendingInviteResponse>)
    requires
        0 <= n < events.len(),
        0 <= j < invites.len(),
        invites[j].event_id == events[n].id,
        shows_invites_from(events, n + 1, invites),
    ensures
        shows_invites_from(events, n, invites),
{
    reveal(invites_from);
    assert(invites_from(invites[j], events, n + 1));
    let k = choose|k: int|
        n + 1 <= k && #[trigger] last_of_its_id(events, k) && invites_to(invites[j], events, k);
    assert(events[k].id == events[n].id);
    assert(!last_of_its_id(events, n));
    assert forall|i: int| 0 <= i < invites.len() implies invites_from(
        #[trigger] invites[i],
        events,
        n,
    ) by {
        assert(invites_from(invites[i], events, n + 1));
    }
}

/// An invitation to an event whose identifier has none joins the others.
proof fn new_is_added(
    events: Seq<EventRow>,
    n: int,
    before: Seq<PendingInviteResponse>,
    at: int,
    invite: PendingInviteResponse,
)
    requires
        0 <= n < events.len(),
        0 <= at <= before.len(),
        forall|j: int| 0 <= j < before.len() ==> (#[trigger] before[j]).event_id != events[n].id,
        shows_invites_from(events, n + 1, before),
        invites_to(invite, events, n),
        in_date_order(before.insert(at, invite)),
    ensures
        shows_invites_from(events, n, before.insert(at, invite)),
{
    let after = before.insert(at, invite);
    assert(after[at] == invite);
    assert(last_of_its_id(events, n)) by {
        reveal(is_invited);
        let k = last_exists(events, n);
        if k > n {
            assert(is_invited(events, k, before));
            let i = choose|i: int|
                0 <= i < before.len() && invites_to(#[trigger] before[i], events, k);
            assert(before[i].event_id == events[n].id);
        }
    }
    assert forall|i: int| 0 <= i < after.len() implies invites_from(
        #[trigger] after[i],
        events,
        n,
    ) by {
        reveal(invites_from);
        if i != at {
            let b = if i < at { i } else { i - 1 };
            assert(after[i] == before[b]);
            assert(invites_from(before[b], events, n + 1));
        }
    }
    assert forall|k: int| n <= k && #[trigger] last_of_its_id(events, k) implies is_invited(
        events,
        k,
        after,
    ) by {
        reveal(is_invited);
        if k > n {
            assert(is_invited(events, k, before));
            let b = choose|b: int|
                0 <= b < before.len() && invites_to(#[trigger] before[b], events, k);
            let i = if b < at { b } else { b + 1 };
            assert(after[i] == before[b]);
        }
    }
    assert forall|i: int, j: int|
        #![trigger after[i], after[j]]
        0 <= i < j < after.len() implies after[i].event_id != after[j].event_id by {
        let bi = if i < at { i } else { i - 1 };
        let bj = if j < at { j } else { j - 1 };
        assert(i != at ==> after[i] == before[bi]);
        assert(j != at ==> after[j] == before[bj]);
    }
}

/// The place of the invitation to an event among others, if it is there.
fn invite_of(invites: &Vec<PendingInviteResponse>, id: Id) -> (r: Option<usize>)
    ensures
        match r {
            Some(j) => j < invites@.len() && invites@[j as int].event_id == id,
            None => forall|j: int|
                0 <= j < invites@.len() ==> (#[trigger] invites@[j]).event_id != id,
        },
{
    for i in 0..invites.len()
        invariant
            forall|j: int| 0 <= j < i ==> (#[trigger] invites@[j]).event_id != id,
    {
        if invites[i].event_id == id {
            return Some(i);
        }
    }
    None
}

/// The invitations to `events`, in the order of their dates.
fn pending_invites(events: &Vec<EventRow>) -> (invites: Vec<PendingInviteResponse>)
    ensures
        shows_invites(events@, invites@),
{
    let mut invites: Vec<PendingInviteResponse> = Vec::new();
    let mut n: usize = events.len();
    while n > 0
        invariant
            n <= events@.len(),
            shows_invites_from(events@, n as int, invites@),
        decreases n,
    {
        n = n - 1;
        let event = &events[n];
        match invite_of(&invites, event.id) {
            Some(j) => {
                proof {
                    known_is_kept(events@, n as int, j as int, invites@);
                }
            },
            None => {
                let ghost before = invites@;
                let invite = PendingInviteResponse {
                    event_id: event.id,
                    date: event.date.to_string(),
                };
                let at = place(&mut invites, invite);
                proof {
                    new_is_added(events@, n as int, before, at as int, invite);
                }
            },
        }
    }
    invites
}

/// Puts a calendar together.
pub enum BuildCalendar {
    Busy { user_id: Id, from: Date, to: Date },
    Pending {
        user_id: Id,
        from: Date,
        to: Date,
        busy_days: Vec<BusydayResponse>,
        past_events: Vec<String>,
    },
    Events {
        from: Date,
        to: Date,
        busy_days: Vec<BusydayResponse>,
        past_events: Vec<String>,
        among: Ghost<Seq<Id>>,
    },
}

/// A calendar, from its parts.
pub open spec fn shows_calendar(
    from: Date,
    to: Date,
    busy_days: Vec<BusydayResponse>,
    past_events: Vec<String>,
    shown: CalendarResponse,
) -> bool {
    &&& shown.from@ == from.text()
    &&& shown.to@ == to.text()
    &&& shown.busy_days == busy_days
    &&& shown.past_events == past_events
}

impl BuildCalendar {
    /// A range of days has been looked at, and its calendar begun or refused.
    pub open spec fn begun(
        user_id: Id,
        query: CalendarQuery,
        step: Step<BuildCalendar, CalendarResponse>,
    ) -> bool {
        &&& reads_back(query.from@)
        &&& named_day(query.from@) is Some ==> reads_back(query.to@)
        &&& match (named_day(query.from@), named_day(query.to@)) {
            (Some(a), Some(b)) => if day_lt(b, a) {
                step.refused(Refusal::StartAfterEnd)
            } else {
                step matches Step::Ask(BuildCalendar::Busy { user_id: u, from, to }, _) && u
                    == user_id && from.ymd() == a && to.ymd() == b
            },
            _ => step.refused(Refusal::InvalidDate),
        }
    }

    /// The busy days are known, on the day `today`.
    pub open spec fn knows_busy_days(
        user_id: Id,
        from: Date,
        to: Date,
        rows: Seq<BusydayRow>,
        today: Date,
        step: Step<BuildCalendar, CalendarResponse>,
    ) -> bool {
        step matches Step::Ask(
            BuildCalendar::Pending { user_id: u, from: f, to: t, busy_days, past_events },
            _,
        ) && u == user_id && f == from && t == to && shows_busy_days(rows, busy_days@) && texts(
            past_events@,
        ) == days_gone_by(rows, today)
    }

    /// Goes on once the busy days are known, on a given day.
    pub fn with_busy_days(
        user_id: Id,
        from: Date,
        to: Date,
        rows: &Vec<BusydayRow>,
        today: Date,
    ) -> (step: Step<BuildCalendar, CalendarResponse>)
        ensures
            BuildCalendar::knows_busy_days(user_id, from, to, rows@, today, step),
            step matches Step::Ask(m, request) && m.asking(request),
    {
        let busy_days = busy_day_responses(rows);
        let past_events = past_days(rows, today);
        let cond = Cond::is(UserEventTest::UserId(user_id)).and(
            Cond::is(UserEventTest::RoleIs(UserEventRole::Participant)),
        ).and(Cond::is(UserEventTest::ResponseIs(UserEventResponse::Pending)));
        Step::Ask(
            BuildCalendar::Pending { user_id, from, to, busy_days, past_events },
            Request::AllUserEvents(cond, Order::Unspecified),
        )
    }
}

/// Asks for the calendar of a user over a range of days.
pub fn build_calendar_response(user_id: Id, query: &CalendarQuery) -> (step: Step<
    BuildCalendar,
    CalendarResponse,
>)
    ensures
        BuildCalendar::begun(user_id, *query, step),
        step matches Step::Ask(m, request) ==> m.asking(request),
{
    match parse_date_range(query.from.as_str(), query.to.as_str()) {
        Ok((from, to)) => {
            let cond = Cond::is(BusydayTest::UserId(user_id)).and(
                Cond::is(BusydayTest::DateFrom(from)),
            ).and(Cond::is(BusydayTest::DateUpTo(to)));
            Step::Ask(
                BuildCalendar::Busy { user_id, from, to },
                Request::AllBusydays(cond, Order::Ascending),
            )
        },
        Err(why) => Step::Done(Err(why)),
    }
}

impl Machine for BuildCalendar {
    type Out = CalendarResponse;

    open spec fn asking(self, request: Request) -> bool {
        match self {
            BuildCalendar::Busy { user_id, from, to } => {
                &&& request matches Request::AllBusydays(c, Order::Ascending)
                &&& c.means(
                    |row: BusydayRow|
                        row.user_id == user_id && from.le(row.date) && row.date.le(to),
                )
            },
            BuildCalendar::Pending { user_id, from, to, busy_days, past_events } => {
                &&& request matches Request::AllUserEvents(c, _)
                &&& c.means(
                    |row: UserEventRow|
                        row.user_id == user_id && row.role is Participant && row.response_status
                            is Pending,
                )
            },
            BuildCalendar::Events { from, to, busy_days, past_events, among } => {
                &&& request matches Request::AllEvents(c, Order::Ascending)
                &&& c.means(
                    |event: EventRow|
                        among@.contains(event.id) && from.le(event.date) && event.date.le(to),
                )
            },
        }
    }

    open spec fn next(self, reply: Reply, step: Step<Self, CalendarResponse>) -> bool {
        match self {
            BuildCalendar::Busy { user_id, from, to } => match reply {
                Reply::Busydays(rows) => exists|today: Date|
                    {
                        &&& today.on_the_clock()
                        &&& calendar_day(today.ymd().0, today.ymd().1, today.ymd().2)
                        &&& #[trigger] BuildCalendar::knows_busy_days(
                            user_id,
                            from,
                            to,
                            rows@,
                            today,
                            step,
                        )
                    },
                _ => step.refused(Refusal::Internal),
            },
            BuildCalendar::Pending { user_id, from, to, busy_days, past_events } => match reply {
                Reply::UserEvents(rows) => if rows@.len() == 0 {
                    step matches Step::Done(Ok(shown)) && shows_calendar(
                        from,
                        to,
                        busy_days,
                        past_events,
                        shown,
                    ) && shown.pending_invites@.len() == 0
                } else {
                    step.waits_at(
                        BuildCalendar::Events {
                            from,
                            to,
                            busy_days,
                            past_events,
                            among: Ghost(events_of(rows@)),
                        },
                    )
                },
                _ => step.refused(Refusal::Internal),
            },
            BuildCalendar::Events { from, to, busy_days, past_events, among } => match reply {
                Reply::Events(events) => step matches Step::Done(Ok(shown)) && shows_calendar(
                    from,
                    to,
                    busy_days,
                    past_events,
                    shown,
                ) && shows_invites(events@, shown.pending_invites@),
                _ => step.refused(Refusal::Internal),
            },
        }
    }

    open spec fn left(self) -> (nat, nat, nat, nat, nat) {
        match self {
            BuildCalendar::Busy { .. } => steps_left(2),
            BuildCalendar::Pending { .. } => steps_left(1),
            BuildCalendar::Events { .. } => steps_left(0),
        }
    }

    proof fn nears_end(self, reply: Reply, step: Step<Self, CalendarResponse>) {
    }

    fn resume(self, reply: Reply) -> (step: Step<Self, CalendarResponse>) {
        match self {
            BuildCalendar::Busy { user_id, from, to } => match reply {
                Reply::Busydays(rows) => BuildCalendar::with_busy_days(
                    user_id,
                    from,
                    to,
                    &rows,
                    Date::today(),
                ),
                _ => Step::Done(Err(Refusal::Internal)),
            },
            BuildCalendar::Pending { user_id, from, to, busy_days, past_events } => match reply {
                Reply::UserEvents(rows) => {
                    if rows.len() == 0 {
                        return Step::Done(
                            Ok(
                                CalendarResponse {
                                    from: from.to_string(),
                                    to: to.to_string(),
                                    busy_days,
                                    pending_invites: Vec::new(),
                                    past_events,
                                },
                            ),
                        );
                    }
                    let ids = event_ids(&rows);
                    let among: Ghost<Seq<Id>> = Ghost(ids@);
                    let cond = Cond::is(EventTest::IdIn(ids)).and(
                        Cond::is(EventTest::DateFrom(from)),
                    ).and(Cond::is(EventTest::DateUpTo(to)));
                    Step::Ask(
                        BuildCalendar::Events { from, to, busy_days, past_events, among },
                        Request::AllEvents(cond, Order::Ascending),
                    )
                },
                _ => Step::Done(Err(Refusal::Internal)),
            },
            BuildCalendar::Events { from, to, busy_days, past_events, among } => match reply {
                Reply::Events(events) => Step::Done(
                    Ok(
                        CalendarResponse {
                            from: from.to_string(),
                            to: to.to_string(),
                            busy_days,
                            pending_invites: pending_invites(&events),
                            past_events,
                        },
                    ),
                ),
                _ => Step::Done(Err(Refusal::Internal)),
            },
        }
    }
}

/// Shows the calendar of a user, to the user and to friends.
pub enum GetCalendar {
    Friend { me: Id, user_id: Id, query: CalendarQuery },
    Build(BuildCalendar),
}

impl GetCalendar {
    /// The calendar of a user has been begun or refused.
    pub open spec fn begun(
        user_id: Id,
        query: CalendarQuery,
        step: Step<GetCalendar, CalendarResponse>,
    ) -> bool {
        match step {
            Step::Ask(GetCalendar::Build(build), request) => BuildCalendar::begun(
                user_id,
                query,
                Step::Ask(build, request),
            ),
            Step::Done(r) => BuildCalendar::begun(user_id, query, Step::Done(r)),
            _ => false,
        }
    }

    fn begin(user_id: Id, query: &CalendarQuery) -> (step: Step<GetCalendar, CalendarResponse>)
        ensures
            GetCalendar::begun(user_id, *query, step),
            step matches Step::Ask(m, request) ==> m.asking(request),
    {
        match build_calendar_response(user_id, query) {
            Step::Ask(build, request) => Step::Ask(GetCalendar::Build(build), request),
            Step::Done(r) => Step::Done(r),
        }
    }
}

/// Asks for the calendar of the user who is signed in.
pub fn get_my_calendar(auth: AuthUser, query: CalendarQuery) -> (step: Step<
    GetCalendar,
    CalendarResponse,
>)
    ensures
        GetCalendar::begun(auth.user_id, query, step),
        step matches Step::Ask(m, request) ==> m.asking(request),
{
    GetCalendar::begin(auth.user_id, &query)
}

/// Asks for the calendar of a user.
pub fn get_user_calendar(auth: AuthUser, user_id: Id, query: CalendarQuery) -> (step: Step<
    GetCalendar,
    CalendarResponse,
>)
    ensures
        if auth.user_id == user_id {
            GetCalendar::begun(user_id, query, step)
        } else {
            step.waits_at(GetCalendar::Friend { me: auth.user_id, user_id, query })
        },
        step matches Step::Ask(m, request) ==> m.asking(request),
{
    let me: Id = auth.user_id;
    if me != user_id {
        let request = are_users_accepted_friends(me, user_id);
        return Step::Ask(GetCalendar::Friend { me, user_id, query }, request);
    }
    GetCalendar::begin(user_id, &query)
}

impl Machine for GetCalendar {
    type Out = CalendarResponse;

    open spec fn asking(self, request: Request) -> bool {
        match self {
            GetCalendar::Friend { me, user_id, query } => {
                &&& request matches Request::OneFriendship(c)
                &&& c.means(accepted_between(me, user_id))
            },
            GetCalendar::Build(build) => build.asking(request),
        }
    }

    open spec fn next(self, reply: Reply, step: Step<Self, CalendarResponse>) -> bool {
        match self {
            GetCalendar::Friend { me, user_id, query } => match reply {
                Reply::Friendship(Some(_)) => GetCalendar::begun(user_id, query, step),
                Reply::Friendship(None) => step.refused(Refusal::CalendarForbidden),
                _ => step.refused(Refusal::Internal),
            },
            GetCalendar::Build(build) => match step {
                Step::Ask(GetCalendar::Build(b), request) => build.next(
                    reply,
                    Step::Ask(b, request),
                ),
                Step::Done(r) => build.next(reply, Step::Done(r)),
                _ => false,
            },
        }
    }

    open spec fn left(self) -> (nat, nat, nat, nat, nat) {
        match self {
            GetCalendar::Friend { .. } => steps_left(1),
            GetCalendar::Build(build) => then_left(0, build.left()),
        }
    }

    proof fn nears_end(self, reply: Reply, step: Step<Self, CalendarResponse>) {
        if let GetCalendar::Build(build) = self {
            match step {
                Step::Ask(GetCalendar::Build(b), request) => {
                    build.nears_end(reply, Step::Ask(b, request));
                },
                _ => {},
            }
        }
    }

    fn resume(self, reply: Reply) -> (step: Step<Self, CalendarResponse>) {
        match self {
            GetCalendar::Friend { me, user_id, query } => match reply {
                Reply::Friendship(Some(_)) => GetCalendar::begin(user_id, &query),
                Reply::Friendship(None) => Step::Done(Err(Refusal::CalendarForbidden)),
                _ => Step::Done(Err(Refusal::Internal)),
            },
            GetCalendar::Build(build) => match build.resume(reply) {
                Step::Ask(build, request) => Step::Ask(GetCalendar::Build(build), request),
                Step::Done(r) => Step::Done(r),
            },
        }
    }
}

/// Says whether a user's day is taken, to the user and to friends.
pub enum IsBusy {
    Friend { me: Id, payload: IsBusyRequest },
    Day { user_id: Id, date: Date },
}

impl IsBusy {
    /// A day has been looked at, and the question asked or refused.
    pub open spec fn begun(payload: IsBusyRequest, step: Step<IsBusy, bool>) -> bool {
        &&& reads_back(payload.date@)
        &&& match named_day(payload.date@) {
            None => step.refused(Refusal::InvalidDate),
            Some(day) => step matches Step::Ask(IsBusy::Day { user_id, date }, _) && user_id
                == payload.id && date.ymd() == day,
        }
    }

    fn begin(payload: &IsBusyRequest) -> (step: Step<IsBusy, bool>)
        ensures
            IsBusy::begun(*payload, step),
            step matches Step::Ask(m, request) ==> m.asking(request),
    {
        match parse_one_date(payload.date.as_str()) {
            Ok(date) => Step::Ask(
                IsBusy::Day { user_id: payload.id, date },
                ensure_day_is_free(payload.id, date),
            ),
            Err(why) => Step::Done(Err(why)),
        }
    }
}

/// Asks whether a user's day is taken.
pub fn is_busy(auth: AuthUser, payload: IsBusyRequest) -> (step: Step<IsBusy, bool>)
    ensures
        if auth.user_id == payload.id {
            IsBusy::begun(payload, step)
        } else {
            step.waits_at(IsBusy::Friend { me: auth.user_id, payload })
        },
        step matches Step::Ask(m, request) ==> m.asking(request),
{
    let me: Id = auth.user_id;
    if me != payload.id {
        let request = are_users_accepted_friends(me, payload.id);
        return Step::Ask(IsBusy::Friend { me, payload }, request);
    }
    IsBusy::begin(&payload)
}

impl Machine for IsBusy {
    type Out = bool;

    open spec fn asking(self, request: Request) -> bool {
        match self {
            IsBusy::Friend { me, payload } => {
                &&& request matches Request::OneFriendship(c)
                &&& c.means(accepted_between(me, payload.id))
            },
            IsBusy::Day { user_id, date } => {
                &&& request matches Request::OneBusyday(c)
                &&& c.means(busy_on(user_id, date))
            },
        }
    }

    open spec fn next(self, reply: Reply, step: Step<Self, bool>) -> bool {
        match self {
            IsBusy::Friend { me, payload } => match reply {
                Reply::Friendship(Some(_)) => IsBusy::begun(payload, step),
                Reply::Friendship(None) => step.refused(Refusal::AvailabilityForbidden),
                _ => step.refused(Refusal::Internal),
            },
            IsBusy::Day { user_id, date } => match reply {
                Reply::Busyday(found) => step matches Step::Done(Ok(busy)) && busy == (found
                    is Some),
                _ => step.refused(Refusal::Internal),
            },
        }
    }

    open spec fn left(self) -> (nat, nat, nat, nat, nat) {
        match self {
            IsBusy::Friend { .. } => steps_left(1),
            IsBusy::Day { .. } => steps_left(0),
        }
    }

    proof fn nears_end(self, reply: Reply, step: Step<Self, bool>) {
    }

    fn resume(self, reply: Reply) -> (step: Step<Self, bool>) {
        match self {
            IsBusy::Friend { me, payload } => match reply {
                Reply::Friendship(Some(_)) => IsBusy::begin(&payload),
                Reply::Friendship(None) => Step::Done(Err(Refusal::AvailabilityForbidden)),
                _ => Step::Done(Err(Refusal::Internal)),
            },
            IsBusy::Day { user_id, date } => match reply {
                Reply::Busyday(found) => Step::Done(Ok(found.is_some())),
                _ => Step::Done(Err(Refusal::Internal)),
            },
        }
    }
}

} // verus!
