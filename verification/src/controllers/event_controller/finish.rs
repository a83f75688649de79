//! Completing an event.

use crate::controllers::event_controller::load::{load_event_response, LoadEvent};
use crate::controllers::event_controller::rules::{event_by, find_event_by, is_open};
use crate::controllers::models::{AuthUser, EventResponse, FinishEventBody};
use crate::entities::{EventStatus, Id};
use crate::machine::{steps_left, then_left, Machine, Step};
use crate::refusal::Refusal;
use crate::store::{EventChanges, Reply, Request};
use crate::text::{blank, is_blank};
use crate::time::{calendar_day, Date};
use vstd::prelude::*;

verus! {

/// Completes an event of one's own with an image to remember it by, on its day
/// or later.
pub enum FinishEvent {
    Event { me: Id, id: Id, today: Date, image: String },
    Update { id: Id, stored: Ghost<String> },
    Loading(LoadEvent),
}

/// Asks to complete an event, on the current day.
pub fn finish_event(auth: AuthUser, id: Id, body: FinishEventBody) -> (step: Step<
    FinishEvent,
    EventResponse,
>)
    ensures
        step matches Step::Ask(FinishEvent::Event { me, id: i, today, image }, _) && me
            == auth.user_id && i == id && image == body.memory_image_base64
            && today.on_the_clock() && calendar_day(
            today.ymd().0,
            today.ymd().1,
            today.ymd().2,
        ),
        step matches Step::Ask(m, request) && m.asking(request),
{
    finish_event_on(auth, id, body, Date::today())
}

/// Asks to complete an event, on a given day.
pub fn finish_event_on(auth: AuthUser, id: Id, body: FinishEventBody, today: Date) -> (step: Step<
    FinishEvent,
    EventResponse,
>)
    ensures
        step.waits_at(
            FinishEvent::Event { me: auth.user_id, id, today, image: body.memory_image_base64 },
        ),
        step matches Step::Ask(m, request) && m.asking(request),
{
    let me: Id = auth.user_id;
    let request = find_event_by(id, me);
    Step::Ask(FinishEvent::Event { me, id, today, image: body.memory_image_base64 }, request)
}

impl Machine for FinishEvent {
    type Out = EventResponse;

    open spec fn asking(self, request: Request) -> bool {
        match self {
            FinishEvent::Event { me, id, today, image } => {
                &&& request matches Request::OneEvent(c)
                &&& c.means(event_by(id, me))
            },
            FinishEvent::Update { id, stored } => {
                &&& request matches Request::UpdateEvent(event_id, changes)
                &&& event_id == id
                &&& changes.status == Some(EventStatus::Completed)
                &&& changes.memory_image_base64 == Some(stored@)
            },
            FinishEvent::Loading(load) => load.asking(request),
        }
    }

    open spec fn next(self, reply: Reply, step: Step<Self, EventResponse>) -> bool {
        match self {
            FinishEvent::Event { me, id, today, image } => match reply {
                Reply::Event(Some(event)) => if !event.status.open() {
                    step.refused(Refusal::EventClosed)
                } else if today.lt(event.date) {
                    step.refused(Refusal::EventInFuture)
                } else if blank(image@) {
                    step.refused(Refusal::MemoryImageMissing)
                } else {
                    step.waits_at(FinishEvent::Update { id, stored: Ghost(image) })
                },
                Reply::Event(None) => step.refused(Refusal::NotEventCreator),
                _ => step.refused(Refusal::Internal),
            },
            FinishEvent::Update { id, stored } => match reply {
                Reply::Done => step.waits_at(FinishEvent::Loading(LoadEvent::Event { id })),
                _ => step.refused(Refusal::Internal),
            },
            FinishEvent::Loading(load) => match step {
                Step::Ask(FinishEvent::Loading(l), request) => load.next(
                    reply,
                    Step::Ask(l, request),
                ),
                Step::Done(r) => load.next(reply, Step::Done(r)),
                _ => false,
            },
        }
    }

    open spec fn left(self) -> (nat, nat, nat, nat, nat) {
        match self {
            FinishEvent::Event { .. } => steps_left(2),
            FinishEvent::Update { .. } => steps_left(1),
            FinishEvent::Loading(load) => then_left(0, load.left()),
        }
    }

    proof fn nears_end(self, reply: Reply, step: Step<Self, EventResponse>) {
        if let FinishEvent::Loading(load) = self {
            match step {
                Step::Ask(FinishEvent::Loading(l), request) => {
                    load.nears_end(reply, Step::Ask(l, request));
                },
                _ => {},
            }
        }
    }

    fn resume(self, reply: Reply) -> (step: Step<Self, EventResponse>) {
        match self {
            FinishEvent::Event { me, id, today, image } => match reply {
                Reply::Event(Some(event)) => {
                    if !is_open(event.status) {
                        return Step::Done(Err(Refusal::EventClosed));
                    }
                    if today.is_before(&event.date) {
                        return Step::Done(Err(Refusal::EventInFuture));
                    }
                    if is_blank(image.as_str()) {
                        return Step::Done(Err(Refusal::MemoryImageMissing));
                    }
                    let ghost stored = image;
                    let request = Request::UpdateEvent(
                        id,
                        EventChanges {
                            status: Some(EventStatus::Completed),
                            memory_image_base64: Some(image),
                        },
                    );
                    Step::Ask(FinishEvent::Update { id, stored: Ghost(stored) }, request)
                },
                Reply::Event(None) => Step::Done(Err(Refusal::NotEventCreator)),
                _ => Step::Done(Err(Refusal::Internal)),
            },
            FinishEvent::Update { id, stored } => match reply {
                Reply::Done => Step::Ask(
                    FinishEvent::Loading(LoadEvent::Event { id }),
                    load_event_response(id),
                ),
                _ => Step::Done(Err(Refusal::Internal)),
            },
            FinishEvent::Loading(load) => match load.resume(reply) {
                Step::Ask(load, request) => Step::Ask(FinishEvent::Loading(load), request),
                Step::Done(r) => Step::Done(r),
            },
        }
    }
}

} // verus!
