//! Listing the events of a user.

use crate::controllers::event_controller::load::LoadEvents;
use crate::controllers::models::{AuthUser, EventResponse, EventScope, EventScopeQuery};
use crate::entities::{
    EventRow, EventStatus, Id, UserEventResponse, UserEventRole, UserEventRow,
};
use crate::machine::{steps_left, then_left, Machine, Step};
use crate::refusal::Refusal;
use crate::store::{Cond, EventTest, Order, Reply, Request, UserEventTest};
use crate::time::{calendar_day, Date};
use vstd::prelude::*;

verus! {

/// Which of the events that a user has a part in are listed.
#[derive(Clone, Copy, Debug)]
pub enum Listing {
    /// The user is invited and has not declined.
    Invited,
    /// The user takes part, on that day or later, and the event is not canceled.
    Upcoming(Date),
    /// The user takes part, before that day.
    Past(Date),
    /// The user takes part, and the event waits for others.
    Pending,
    /// The user is invited and has not answered; the event is open, on that day
    /// or later.
    Waiting(Date),
}

impl Listing {
    /// The parts of `me` whose events are listed.
    pub open spec fn parts(self, me: Id) -> spec_fn(UserEventRow) -> bool {
        match self {
            Listing::Invited => |row: UserEventRow|
                row.user_id == me && row.role is Participant && !(row.response_status is Declined),
            Listing::Upcoming(_) | Listing::Past(_) | Listing::Pending => |row: UserEventRow|
                row.user_id == me && row.response_status is Accepted,
            Listing::Waiting(_) => |row: UserEventRow|
                row.user_id == me && row.role is Participant && row.response_status is Pending,
        }
    }

    /// The events that are listed, among those with the identifiers `ids`.
    pub open spec fn events(self, ids: Seq<Id>) -> spec_fn(EventRow) -> bool {
        match self {
            Listing::Invited => |event: EventRow| ids.contains(event.id),
            Listing::Upcoming(today) => |event: EventRow|
                ids.contains(event.id) && today.le(event.date) && !(event.status is Canceled),
            Listing::Past(today) => |event: EventRow|
                ids.contains(event.id) && event.date.lt(today),
            Listing::Pending => |event: EventRow|
                ids.contains(event.id) && event.status is Pending,
            Listing::Waiting(today) => |event: EventRow|
                ids.contains(event.id) && today.le(event.date) && event.status.open(),
        }
    }

    /// Past events come latest first, the others earliest first.
    pub open spec fn order(self) -> Order {
        if self is Past {
            Order::Descending
        } else {
            Order::Ascending
        }
    }

    fn parts_wanted(self, me: Id) -> (r: Cond<UserEventTest>)
        ensures
            r.means(self.parts(me)),
    {
        let mine = Cond::is(UserEventTest::UserId(me));
        match self {
            Listing::Invited => mine.and(
                Cond::is(UserEventTest::RoleIs(UserEventRole::Participant)),
            ).and(Cond::is(UserEventTest::ResponseIsNot(UserEventResponse::Declined))),
            Listing::Upcoming(_) | Listing::Past(_) | Listing::Pending => accepted_event_ids(me),
            Listing::Waiting(_) => mine.and(
                Cond::is(UserEventTest::RoleIs(UserEventRole::Participant)),
            ).and(Cond::is(UserEventTest::ResponseIsNot(UserEventResponse::Accepted))).and(
                Cond::is(UserEventTest::ResponseIsNot(UserEventResponse::Declined)),
            ),
        }
    }

    fn events_wanted(self, ids: Vec<Id>) -> (r: Request)
        ensures
            r matches Request::AllEvents(c, order) && c.means(self.events(ids@)) && order
                == self.order(),
    {
        let among = Cond::is(EventTest::IdIn(ids));
        match self {
            Listing::Invited => Request::AllEvents(among, Order::Ascending),
            Listing::Upcoming(today) => Request::AllEvents(
                among.and(Cond::is(EventTest::DateFrom(today))).and(
                    Cond::is(EventTest::StatusIsNot(EventStatus::Canceled)),
                ),
                Order::Ascending,
            ),
            Listing::Past(today) => Request::AllEvents(
                among.and(Cond::is(EventTest::DateBefore(today))),
                Order::Descending,
            ),
            Listing::Pending => Request::AllEvents(
                among.and(Cond::is(EventTest::StatusIs(EventStatus::Pending))),
                Order::Ascending,
            ),
            Listing::Waiting(today) => Request::AllEvents(
                among.and(Cond::is(EventTest::DateFrom(today))).and(
                    Cond::is(EventTest::StatusIsNot(EventStatus::Canceled)),
                ).and(Cond::is(EventTest::StatusIsNot(EventStatus::Completed))),
                Order::Ascending,
            ),
        }
    }
}

/// The condition on the events that a user takes part in.
pub fn accepted_event_ids(user_id: Id) -> (r: Cond<UserEventTest>)
    ensures
        r.means(|row: UserEventRow| row.user_id == user_id && row.response_status is Accepted),
{
    Cond::is(UserEventTest::UserId(user_id)).and(
        Cond::is(UserEventTest::ResponseIs(UserEventResponse::Accepted)),
    )
}

/// The events in which `rows` are parts.
pub open spec fn events_of(rows: Seq<UserEventRow>) -> Seq<Id> {
    rows.map_values(|row: UserEventRow| row.event_id)
}

/// The events in which `rows` are parts.
pub fn event_ids(rows: &Vec<UserEventRow>) -> (ids: Vec<Id>)
    ensures
        ids@ == events_of(rows@),
{
    let mut ids: Vec<Id> = Vec::new();
    for i in 0..rows.len()
        invariant
            ids@ == events_of(rows@.take(i as int)),
    {
        ids.push(rows[i].event_id);
        assert(ids@ =~= events_of(rows@.take(i + 1)));
    }
    assert(rows@.take(rows@.len() as int) == rows@);
    ids
}

/// Lists events of a user.
pub enum ListEvents {
    /// The events that `me` created.
    Created { me: Id },
    /// The parts of `me` in events.
    Parts { me: Id, listing: Listing },
    /// The events among those with the identifiers `among`.
    Events { listing: Listing, among: Ghost<Seq<Id>> },
    Loading(LoadEvents),
}

impl ListEvents {
    pub open spec fn begun(
        me: Id,
        scope: EventScope,
        today: Date,
        step: Step<ListEvents, Vec<EventResponse>>,
    ) -> bool {
        match scope {
            EventScope::Created => step.waits_at(ListEvents::Created { me }),
            EventScope::Invited => step.waits_at(
                ListEvents::Parts { me, listing: Listing::Invited },
            ),
            EventScope::Upcoming => step.waits_at(
                ListEvents::Parts { me, listing: Listing::Upcoming(today) },
            ),
            EventScope::Past => step.waits_at(
                ListEvents::Parts { me, listing: Listing::Past(today) },
            ),
        }
    }

    fn begin(me: Id, listing: Listing) -> (step: Step<ListEvents, Vec<EventResponse>>)
        ensures
            step.waits_at(ListEvents::Parts { me, listing }),
            step matches Step::Ask(m, request) && m.asking(request),
    {
        let request = Request::AllUserEvents(listing.parts_wanted(me), Order::Unspecified);
        Step::Ask(ListEvents::Parts { me, listing }, request)
    }

    /// The events of `rows` are about to be read.
    pub open spec fn reads(
        rows: Seq<EventRow>,
        step: Step<ListEvents, Vec<EventResponse>>,
    ) -> bool {
        match step {
            Step::Ask(ListEvents::Loading(load), request) => LoadEvents::begun(
                rows,
                Step::Ask(load, request),
            ),
            Step::Done(r) => LoadEvents::begun(rows, Step::Done(r)),
            _ => false,
        }
    }

    fn read(rows: &Vec<EventRow>) -> (step: Step<ListEvents, Vec<EventResponse>>)
        ensures
            ListEvents::reads(rows@, step),
            step matches Step::Ask(m, request) ==> m.asking(request),
    {
        match LoadEvents::begin(rows) {
            Step::Ask(load, request) => Step::Ask(ListEvents::Loading(load), request),
            Step::Done(r) => Step::Done(r),
        }
    }
}

/// The scope that a client asks for: what is to come, unless the client says.
pub open spec fn scope_of(query: EventScopeQuery) -> EventScope {
    match query.scope {
        Some(scope) => scope,
        None => EventScope::Upcoming,
    }
}

/// Asks for the events of the user who is signed in, as seen from the current
/// day.
pub fn get_events(auth: AuthUser, query: EventScopeQuery) -> (step: Step<
    ListEvents,
    Vec<EventResponse>,
>)
    ensures
        exists|today: Date|
            today.on_the_clock() && calendar_day(today.ymd().0, today.ymd().1, today.ymd().2)
                && #[trigger] ListEvents::begun(auth.user_id, scope_of(query), today, step),
        step matches Step::Ask(m, request) && m.asking(request),
{
    get_events_on(auth, query, Date::today())
}

/// Asks for the events of the user who is signed in, as seen from a given day.
pub fn get_events_on(auth: AuthUser, query: EventScopeQuery, today: Date) -> (step: Step<
    ListEvents,
    Vec<EventResponse>,
>)
    ensures
        ListEvents::begun(auth.user_id, scope_of(query), today, step),
        step matches Step::Ask(m, request) && m.asking(request),
{
    let me: Id = auth.user_id;
    let scope = match query.scope {
        Some(scope) => scope,
        None => EventScope::Upcoming,
    };
    match scope {
        EventScope::Created => Step::Ask(
            ListEvents::Created { me },
            Request::AllEvents(Cond::is(EventTest::CreatorId(me)), Order::Ascending),
        ),
        EventScope::Invited => ListEvents::begin(me, Listing::Invited),
        EventScope::Upcoming => ListEvents::begin(me, Listing::Upcoming(today)),
        EventScope::Past => ListEvents::begin(me, Listing::Past(today)),
    }
}

/// Asks for the events that the user takes part in and that wait for others.
pub fn get_pending_events(auth: AuthUser) -> (step: Step<ListEvents, Vec<EventResponse>>)
    ensures
        step.waits_at(ListEvents::Parts { me: auth.user_id, listing: Listing::Pending }),
        step matches Step::Ask(m, request) && m.asking(request),
{
    ListEvents::begin(auth.user_id, Listing::Pending)
}

/// Asks for the events that wait for the user's answer, as seen from the
/// current day.
pub fn get_waiting_events(auth: AuthUser) -> (step: Step<ListEvents, Vec<EventResponse>>)
    ensures
        step matches Step::Ask(ListEvents::Parts { me, listing: Listing::Waiting(today) }, _) && me
            == auth.user_id && today.on_the_clock() && calendar_day(
            today.ymd().0,
            today.ymd().1,
            today.ymd().2,
        ),
        step matches Step::Ask(m, request) && m.asking(request),
{
    get_waiting_events_on(auth, Date::today())
}

/// Asks for the events that wait for the user's answer, as seen from a given
/// day.
pub fn get_waiting_events_on(auth: AuthUser, today: Date) -> (step: Step<
    ListEvents,
    Vec<EventResponse>,
>)
    ensures
        step.waits_at(ListEvents::Parts { me: auth.user_id, listing: Listing::Waiting(today) }),
        step matches Step::Ask(m, request) && m.asking(request),
{
    ListEvents::begin(auth.user_id, Listing::Waiting(today))
}

impl Machine for ListEvents {
    type Out = Vec<EventResponse>;

    open spec fn asking(self, request: Request) -> bool {
        match self {
            ListEvents::Created { me } => {
                &&& request matches Request::AllEvents(c, Order::Ascending)
                &&& c.means(|event: EventRow| event.creator_id == me)
            },
            ListEvents::Parts { me, listing } => {
                &&& request matches Request::AllUserEvents(c, _)
                &&& c.means(listing.parts(me))
            },
            ListEvents::Events { listing, among } => {
                &&& request matches Request::AllEvents(c, order)
                &&& c.means(listing.events(among@))
                &&& order == listing.order()
            },
            ListEvents::Loading(load) => load.asking(request),
        }
    }

    open spec fn next(self, reply: Reply, step: Step<Self, Vec<EventResponse>>) -> bool {
        match self {
            ListEvents::Created { me } => match reply {
                Reply::Events(rows) => ListEvents::reads(rows@, step),
                _ => step.refused(Refusal::Internal),
            },
            ListEvents::Parts { me, listing } => match reply {
                Reply::UserEvents(rows) => if rows@.len() == 0 {
                    step matches Step::Done(Ok(found)) && found@.len() == 0
                } else {
                    step.waits_at(ListEvents::Events { listing, among: Ghost(events_of(rows@)) })
                },
                _ => step.refused(Refusal::Internal),
            },
            ListEvents::Events { listing, among } => match reply {
                Reply::Events(rows) => ListEvents::reads(rows@, step),
                _ => step.refused(Refusal::Internal),
            },
            ListEvents::Loading(load) => match step {
                Step::Ask(ListEvents::Loading(l), request) => load.next(
                    reply,
                    Step::Ask(l, request),
                ),
                Step::Done(r) => load.next(reply, Step::Done(r)),
                _ => false,
            },
        }
    }

    open spec fn left(self) -> (nat, nat, nat, nat, nat) {
        match self {
            ListEvents::Parts { .. } => steps_left(2),
            ListEvents::Created { .. } => steps_left(1),
            ListEvents::Events { .. } => steps_left(1),
            ListEvents::Loading(load) => then_left(0, load.left()),
        }
    }

    proof fn nears_end(self, reply: Reply, step: Step<Self, Vec<EventResponse>>) {
        if let ListEvents::Loading(load) = self {
            match step {
                Step::Ask(ListEvents::Loading(l), request) => {
                    load.nears_end(reply, Step::Ask(l, request));
                },
                _ => {},
            }
        }
    }

    fn resume(self, reply: Reply) -> (step: Step<Self, Vec<EventResponse>>) {
        match self {
            ListEvents::Created { me } => match reply {
                Reply::Events(rows) => ListEvents::read(&rows),
                _ => Step::Done(Err(Refusal::Internal)),
            },
            ListEvents::Parts { me, listing } => match reply {
                Reply::UserEvents(rows) => {
                    if rows.len() == 0 {
                        return Step::Done(Ok(Vec::new()));
                    }
                    let request = listing.events_wanted(event_ids(&rows));
                    Step::Ask(
                        ListEvents::Events { listing, among: Ghost(events_of(rows@)) },
                        request,
                    )
                },
                _ => Step::Done(Err(Refusal::Internal)),
            },
            ListEvents::Events { listing, among } => match reply {
                Reply::Events(rows) => ListEvents::read(&rows),
                _ => Step::Done(Err(Refusal::Internal)),
            },
            ListEvents::Loading(load) => match load.resume(reply) {
                Step::Ask(load, request) => Step::Ask(ListEvents::Loading(load), request),
                Step::Done(r) => Step::Done(r),
            },
        }
    }
}

} // verus!
