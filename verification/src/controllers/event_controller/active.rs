//! The active events of a user.

use crate::controllers::event_controller::list::{event_ids, events_of};
use crate::controllers::event_controller::load::{
    all_accepted, have_all_accepted, load_event_response, load_participants, LoadEvent,
    LoadParticipants,
};
use crate::controllers::models::{AuthUser, EventResponse, ParticipantResponse};
use crate::entities::{EventRow, EventStatus, Id, UserEventResponse, UserEventRow};
use crate::machine::{rest, steps_left, then_left, Machine, Step};
use crate::refusal::Refusal;
use crate::store::{Cond, EventChanges, EventTest, Order, Reply, Request, UserEventTest};
use crate::time::{calendar_day, Date};
use vstd::prelude::*;

verus! {

/// Lists the events that all their people have accepted, from the current day
/// on. Events that lie in the past are closed on the way: completed if all have
/// accepted, else canceled.
pub enum GetActiveEvents {
    Parts { me: Id, today: Date },
    Events { today: Date, among: Ghost<Seq<Id>> },
    /// The people in the event at `at`.
    People {
        today: Date,
        events: Vec<EventRow>,
        at: usize,
        people: LoadParticipants,
        found: Vec<EventResponse>,
    },
    /// The event at `at` lies in the past.
    Close {
        today: Date,
        events: Vec<EventRow>,
        at: usize,
        to: EventStatus,
        found: Vec<EventResponse>,
    },
    /// All have accepted the event at `at`.
    Loading {
        today: Date,
        events: Vec<EventRow>,
        at: usize,
        load: LoadEvent,
        found: Vec<EventResponse>,
    },
}

/// Asks for the active events of the user who is signed in, on the current day.
pub fn get_active_events(auth: AuthUser) -> (step: Step<GetActiveEvents, Vec<EventResponse>>)
    ensures
        step matches Step::Ask(GetActiveEvents::Parts { me, today }, _) && me == auth.user_id
            && today.on_the_clock() && calendar_day(
            today.ymd().0,
            today.ymd().1,
            today.ymd().2,
        ),
        step matches Step::Ask(m, request) && m.asking(request),
{
    get_active_events_on(auth, Date::today())
}

/// Asks for the active events of the user who is signed in, on a given day.
pub fn get_active_events_on(auth: AuthUser, today: Date) -> (step: Step<
    GetActiveEvents,
    Vec<EventResponse>,
>)
    ensures
        step.waits_at(GetActiveEvents::Parts { me: auth.user_id, today }),
        step matches Step::Ask(m, request) && m.asking(request),
{
    let me: Id = auth.user_id;
    let cond = Cond::is(UserEventTest::UserId(me)).and(
        Cond::is(UserEventTest::ResponseIsNot(UserEventResponse::Declined)),
    );
    Step::Ask(
        GetActiveEvents::Parts { me, today },
        Request::AllUserEvents(cond, Order::Unspecified),
    )
}

/// How an event is closed whose day is over.
pub open spec fn closing(participants: Seq<ParticipantResponse>) -> EventStatus {
    if all_accepted(participants) {
        EventStatus::Completed
    } else {
        EventStatus::Canceled
    }
}

impl GetActiveEvents {
    /// The events from `at` on are still to be looked at; those before gave
    /// `found`.
    pub open spec fn goes_on(
        today: Date,
        events: Vec<EventRow>,
        at: int,
        found: Seq<EventResponse>,
        step: Step<GetActiveEvents, Vec<EventResponse>>,
    ) -> bool {
        if at < events@.len() {
            step matches Step::Ask(
                GetActiveEvents::People { today: d, events: e, at: a, people, found: f },
                _,
            ) && d == today && e == events && a == at && people == (LoadParticipants::Rows {
                event_id: events@[at].id,
            }) && f@ == found
        } else {
            step matches Step::Done(Ok(f)) && f@ == found
        }
    }

    fn go_on(
        today: Date,
        events: Vec<EventRow>,
        at: usize,
        found: Vec<EventResponse>,
    ) -> (step: Step<GetActiveEvents, Vec<EventResponse>>)
        ensures
            GetActiveEvents::goes_on(today, events, at as int, found@, step),
            step matches Step::Ask(m, request) ==> m.asking(request),
    {
        if at < events.len() {
            match load_participants(events[at].id) {
                Step::Ask(people, request) => Step::Ask(
                    GetActiveEvents::People { today, events, at, people, found },
                    request,
                ),
                Step::Done(_) => Step::Done(Ok(found)),
            }
        } else {
            Step::Done(Ok(found))
        }
    }

    /// The people in the event at `at` are known.
    pub open spec fn judges(
        today: Date,
        events: Vec<EventRow>,
        at: usize,
        found: Vec<EventResponse>,
        people: Seq<ParticipantResponse>,
        step: Step<GetActiveEvents, Vec<EventResponse>>,
    ) -> bool {
        if at >= events@.len() {
            step matches Step::Done(Ok(f)) && f == found
        } else if events@[at as int].date.lt(today) {
            step.waits_at(
                GetActiveEvents::Close { today, events, at, to: closing(people), found },
            )
        } else if all_accepted(people) {
            step.waits_at(
                GetActiveEvents::Loading {
                    today,
                    events,
                    at,
                    load: LoadEvent::Event { id: events@[at as int].id },
                    found,
                },
            )
        } else {
            GetActiveEvents::goes_on(today, events, at + 1, found@, step)
        }
    }

    fn judge(
        today: Date,
        events: Vec<EventRow>,
        at: usize,
        found: Vec<EventResponse>,
        people: Vec<ParticipantResponse>,
    ) -> (step: Step<GetActiveEvents, Vec<EventResponse>>)
        ensures
            GetActiveEvents::judges(today, events, at, found, people@, step),
            step matches Step::Ask(m, request) ==> m.asking(request),
    {
        if at >= events.len() {
            return Step::Done(Ok(found));
        }
        let id: Id = events[at].id;
        let accepted = have_all_accepted(&people);
        if events[at].date.is_before(&today) {
            let to = if accepted {
                EventStatus::Completed
            } else {
                EventStatus::Canceled
            };
            let request = Request::UpdateEvent(
                id,
                EventChanges { status: Some(to), memory_image_base64: None },
            );
            Step::Ask(GetActiveEvents::Close { today, events, at, to, found }, request)
        } else if accepted {
            let request = load_event_response(id);
            let load = LoadEvent::Event { id };
            Step::Ask(GetActiveEvents::Loading { today, events, at, load, found }, request)
        } else {
            GetActiveEvents::go_on(today, events, at + 1, found)
        }
    }
}

impl Machine for GetActiveEvents {
    type Out = Vec<EventResponse>;

    open spec fn asking(self, request: Request) -> bool {
        match self {
            GetActiveEvents::Parts { me, today } => {
                &&& request matches Request::AllUserEvents(c, _)
                &&& c.means(
                    |row: UserEventRow| row.user_id == me && !(row.response_status is Declined),
                )
            },
            GetActiveEvents::Events { today, among } => {
                &&& request matches Request::AllEvents(c, _)
                &&& c.means(|event: EventRow| among@.contains(event.id))
            },
            GetActiveEvents::People { today, events, at, people, found } => people.asking(request),
            GetActiveEvents::Close { today, events, at, to, found } => {
                &&& at < events@.len()
                &&& request matches Request::UpdateEvent(id, changes)
                &&& id == events@[at as int].id
                &&& changes.status == Some(to)
                &&& changes.memory_image_base64 is None
            },
            GetActiveEvents::Loading { today, events, at, load, found } => load.asking(request),
        }
    }

    open spec fn next(self, reply: Reply, step: Step<Self, Vec<EventResponse>>) -> bool {
        match self {
            GetActiveEvents::Parts { me, today } => match reply {
                Reply::UserEvents(rows) => if rows@.len() == 0 {
                    step matches Step::Done(Ok(found)) && found@.len() == 0
                } else {
                    step.waits_at(
                        GetActiveEvents::Events { today, among: Ghost(events_of(rows@)) },
                    )
                },
                _ => step.refused(Refusal::Internal),
            },
            GetActiveEvents::Events { today, among } => match reply {
                Reply::Events(events) => GetActiveEvents::goes_on(
                    today,
                    events,
                    0,
                    Seq::empty(),
                    step,
                ),
                _ => step.refused(Refusal::Internal),
            },
            GetActiveEvents::People { today, events, at, people, found } => {
                ||| step matches Step::Done(Err(why)) && people.next(reply, Step::Done(Err(why)))
                ||| step matches Step::Ask(
                    GetActiveEvents::People { today: d, events: e, at: a, people: p, found: f },
                    request,
                ) && d == today && e == events && a == at && f == found && people.next(
                    reply,
                    Step::Ask(p, request),
                )
                ||| exists|all: Vec<ParticipantResponse>|
                    {
                        &&& #[trigger] people.next(reply, Step::Done(Ok(all)))
                        &&& GetActiveEvents::judges(today, events, at, found, all@, step)
                    }
            },
            GetActiveEvents::Close { today, events, at, to, found } => match reply {
                Reply::Done => GetActiveEvents::goes_on(today, events, at + 1, found@, step),
                _ => step.refused(Refusal::Internal),
            },
            GetActiveEvents::Loading { today, events, at, load, found } => {
                ||| step matches Step::Done(Err(why)) && load.next(reply, Step::Done(Err(why)))
                ||| step matches Step::Ask(
                    GetActiveEvents::Loading { today: d, events: e, at: a, load: l, found: f },
                    request,
                ) && d == today && e == events && a == at && f == found && load.next(
                    reply,
                    Step::Ask(l, request),
                )
                ||| exists|shown: EventResponse|
                    {
                        &&& #[trigger] load.next(reply, Step::Done(Ok(shown)))
                        &&& GetActiveEvents::goes_on(
                            today,
                            events,
                            at + 1,
                            found@.push(shown),
                            step,
                        )
                    }
            },
        }
    }

    open spec fn left(self) -> (nat, nat, nat, nat, nat) {
        match self {
            GetActiveEvents::Parts { .. } => steps_left(2),
            GetActiveEvents::Events { .. } => steps_left(1),
            GetActiveEvents::People { events, at, people, .. } => then_left(
                0,
                then_left(rest(events@.len(), at), then_left(2, people.left())),
            ),
            GetActiveEvents::Close { events, at, .. } => then_left(
                0,
                then_left(rest(events@.len(), at), steps_left(1)),
            ),
            GetActiveEvents::Loading { events, at, load, .. } => then_left(
                0,
                then_left(rest(events@.len(), at), then_left(1, load.left())),
            ),
        }
    }

    proof fn nears_end(self, reply: Reply, step: Step<Self, Vec<EventResponse>>) {
        match (self, step) {
            (
                GetActiveEvents::People { at, people, .. },
                Step::Ask(GetActiveEvents::People { at: a, people: p, .. }, request),
            ) if a == at => {
                people.nears_end(reply, Step::Ask(p, request));
            },
            (
                GetActiveEvents::Loading { load, .. },
                Step::Ask(GetActiveEvents::Loading { load: l, .. }, request),
            ) => {
                load.nears_end(reply, Step::Ask(l, request));
            },
            _ => {},
        }
    }

    fn resume(self, reply: Reply) -> (step: Step<Self, Vec<EventResponse>>) {
        match self {
            GetActiveEvents::Parts { me, today } => match reply {
                Reply::UserEvents(rows) => {
                    if rows.len() == 0 {
                        return Step::Done(Ok(Vec::new()));
                    }
                    let ids = event_ids(&rows);
                    Step::Ask(
                        GetActiveEvents::Events { today, among: Ghost(ids@) },
                        Request::AllEvents(Cond::is(EventTest::IdIn(ids)), Order::Unspecified),
                    )
                },
                _ => Step::Done(Err(Refusal::Internal)),
            },
            GetActiveEvents::Events { today, among } => match reply {
                Reply::Events(events) => GetActiveEvents::go_on(today, events, 0, Vec::new()),
                _ => Step::Done(Err(Refusal::Internal)),
            },
            GetActiveEvents::People { today, events, at, people, found } => match people.resume(
                reply,
            ) {
                Step::Ask(people, request) => Step::Ask(
                    GetActiveEvents::People { today, events, at, people, found },
                    request,
                ),
                Step::Done(Ok(all)) => GetActiveEvents::judge(today, events, at, found, all),
                Step::Done(Err(why)) => Step::Done(Err(why)),
            },
            GetActiveEvents::Close { today, events, at, to, found } => match reply {
                Reply::Done => {
                    if at < events.len() {
                        GetActiveEvents::go_on(today, events, at + 1, found)
                    } else {
                        Step::Done(Ok(found))
                    }
                },
                _ => Step::Done(Err(Refusal::Internal)),
            },
            GetActiveEvents::Loading { today, events, at, load, found } => match load.resume(
                reply,
            ) {
                Step::Ask(load, request) => Step::Ask(
                    GetActiveEvents::Loading { today, events, at, load, found },
                    request,
                ),
                Step::Done(Ok(shown)) => {
                    let mut found = found;
                    found.push(shown);
                    if at < events.len() {
                        GetActiveEvents::go_on(today, events, at + 1, found)
                    } else {
                        Step::Done(Ok(found))
                    }
                },
                Step::Done(Err(why)) => Step::Done(Err(why)),
            },
        }
    }
}

} // verus!
