//! Canceling an event.

use crate::controllers::event_controller::rules::{event_by, find_event_by};
use crate::controllers::models::AuthUser;
use crate::entities::{BusydayRow, EventStatus, Id, UserEventRow};
use crate::machine::{steps_left, Machine, Step};
use crate::refusal::{Refusal, StatusCode};
use crate::store::{BusydayTest, Cond, Reply, Request, UserEventTest};
use vstd::prelude::*;

verus! {

/// Cancels an event of one's own: the days it took are freed, and it is deleted
/// with everybody's part in it.
pub enum CancelEvent {
    Begin { me: Id, id: Id },
    Event { me: Id, id: Id },
    Busydays { id: Id },
    Parts { id: Id },
    Delete { id: Id },
    Commit { id: Id },
}

/// Asks to cancel an event.
pub fn cancel_event(auth: AuthUser, id: Id) -> (step: Step<CancelEvent, StatusCode>)
    ensures
        step.waits_at(CancelEvent::Begin { me: auth.user_id, id }),
        step matches Step::Ask(m, request) && m.asking(request),
{
    Step::Ask(CancelEvent::Begin { me: auth.user_id, id }, Request::Begin)
}

impl Machine for CancelEvent {
    type Out = StatusCode;

    open spec fn asking(self, request: Request) -> bool {
        match self {
            CancelEvent::Begin { me, id } => request is Begin,
            CancelEvent::Event { me, id } => {
                &&& request matches Request::OneEvent(c)
                &&& c.means(event_by(id, me))
            },
            CancelEvent::Busydays { id } => {
                &&& request matches Request::DeleteBusydays(c)
                &&& c.means(|row: BusydayRow| row.event_id == Some(id))
            },
            CancelEvent::Parts { id } => {
                &&& request matches Request::DeleteUserEvents(c)
                &&& c.means(|row: UserEventRow| row.event_id == id)
            },
            CancelEvent::Delete { id } => request == Request::DeleteEvent(id),
            CancelEvent::Commit { id } => request is Commit,
        }
    }

    open spec fn next(self, reply: Reply, step: Step<Self, StatusCode>) -> bool {
        match self {
            CancelEvent::Begin { me, id } => match reply {
                Reply::Done => step.waits_at(CancelEvent::Event { me, id }),
                _ => step.refused(Refusal::Internal),
            },
            CancelEvent::Event { me, id } => match reply {
                Reply::Event(Some(event)) => if event.status is Completed {
                    step.refused(Refusal::EventCompleted)
                } else {
                    step.waits_at(CancelEvent::Busydays { id })
                },
                Reply::Event(None) => step.refused(Refusal::EventMissing),
                _ => step.refused(Refusal::Internal),
            },
            CancelEvent::Busydays { id } => match reply {
                Reply::Count(_) => step.waits_at(CancelEvent::Parts { id }),
                _ => step.refused(Refusal::Internal),
            },
            CancelEvent::Parts { id } => match reply {
                Reply::Count(_) => step.waits_at(CancelEvent::Delete { id }),
                _ => step.refused(Refusal::Internal),
            },
            CancelEvent::Delete { id } => match reply {
                Reply::Done => step.waits_at(CancelEvent::Commit { id }),
                _ => step.refused(Refusal::Internal),
            },
            CancelEvent::Commit { id } => match reply {
                Reply::Done => step == Step::<Self, StatusCode>::Done(Ok(StatusCode::NoContent)),
                _ => step.refused(Refusal::Internal),
            },
        }
    }

    open spec fn left(self) -> (nat, nat, nat, nat, nat) {
        match self {
            CancelEvent::Begin { .. } => steps_left(5),
            CancelEvent::Event { .. } => steps_left(4),
            CancelEvent::Busydays { .. } => steps_left(3),
            CancelEvent::Parts { .. } => steps_left(2),
            CancelEvent::Delete { .. } => steps_left(1),
            CancelEvent::Commit { .. } => steps_left(0),
        }
    }

    proof fn nears_end(self, reply: Reply, step: Step<Self, StatusCode>) {
    }

    fn resume(self, reply: Reply) -> (step: Step<Self, StatusCode>) {
        match self {
            CancelEvent::Begin { me, id } => match reply {
                Reply::Done => Step::Ask(CancelEvent::Event { me, id }, find_event_by(id, me)),
                _ => Step::Done(Err(Refusal::Internal)),
            },
            CancelEvent::Event { me, id } => match reply {
                Reply::Event(Some(event)) => {
                    if matches!(event.status, EventStatus::Completed) {
                        return Step::Done(Err(Refusal::EventCompleted));
                    }
                    Step::Ask(
                        CancelEvent::Busydays { id },
                        Request::DeleteBusydays(Cond::is(BusydayTest::EventId(id))),
                    )
                },
                Reply::Event(None) => Step::Done(Err(Refusal::EventMissing)),
                _ => Step::Done(Err(Refusal::Internal)),
            },
            CancelEvent::Busydays { id } => match reply {
                Reply::Count(_) => Step::Ask(
                    CancelEvent::Parts { id },
                    Request::DeleteUserEvents(Cond::is(UserEventTest::EventId(id))),
                ),
                _ => Step::Done(Err(Refusal::Internal)),
            },
            CancelEvent::Parts { id } => match reply {
                Reply::Count(_) => Step::Ask(CancelEvent::Delete { id }, Request::DeleteEvent(id)),
                _ => Step::Done(Err(Refusal::Internal)),
            },
            CancelEvent::Delete { id } => match reply {
                Reply::Done => Step::Ask(CancelEvent::Commit { id }, Request::Commit),
                _ => Step::Done(Err(Refusal::Internal)),
            },
            CancelEvent::Commit { id } => match reply {
                Reply::Done => Step::Done(Ok(StatusCode::NoContent)),
                _ => Step::Done(Err(Refusal::Internal)),
            },
        }
    }
}

} // verus!
