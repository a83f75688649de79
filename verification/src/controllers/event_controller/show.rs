//! Showing an event to those who have a part in it.

use crate::controllers::event_controller::load::{
    load_event_response, load_participants, LoadEvent, LoadParticipants,
};
use crate::controllers::event_controller::rules::{event_of, find_event};
use crate::controllers::models::{AuthUser, EventResponse, ParticipantResponse};
use crate::entities::{Id, UserEventRow};
use crate::machine::{steps_left, then_left, Machine, Step};
use crate::refusal::Refusal;
use crate::store::{Cond, Reply, Request, UserEventTest};
use vstd::prelude::*;

verus! {

/// The part of a user in an event.
pub open spec fn part_of(event_id: Id, user: Id) -> spec_fn(UserEventRow) -> bool {
    |row: UserEventRow| row.event_id == event_id && row.user_id == user
}

/// Lets in those who have a part in an event.
pub enum EventAccess {
    Event { event_id: Id, user_id: Id },
    Part { event_id: Id, user_id: Id },
}

/// Asks whether a user has a part in an event.
pub fn ensure_event_access(event_id: Id, user_id: Id) -> (r: Request)
    ensures
        (EventAccess::Event { event_id, user_id }).asking(r),
{
    find_event(event_id)
}

impl Machine for EventAccess {
    type Out = ();

    open spec fn asking(self, request: Request) -> bool {
        match self {
            EventAccess::Event { event_id, user_id } => {
                &&& request matches Request::OneEvent(c)
                &&& c.means(event_of(event_id))
            },
            EventAccess::Part { event_id, user_id } => {
                &&& request matches Request::OneUserEvent(c)
                &&& c.means(part_of(event_id, user_id))
            },
        }
    }

    open spec fn next(self, reply: Reply, step: Step<Self, ()>) -> bool {
        match self {
            EventAccess::Event { event_id, user_id } => match reply {
                Reply::Event(Some(_)) => step.waits_at(EventAccess::Part { event_id, user_id }),
                Reply::Event(None) => step.refused(Refusal::EventMissing),
                _ => step.refused(Refusal::Internal),
            },
            EventAccess::Part { event_id, user_id } => match reply {
                Reply::UserEvent(Some(_)) => step matches Step::Done(Ok(_)),
                Reply::UserEvent(None) => step.refused(Refusal::EventForbidden),
                _ => step.refused(Refusal::Internal),
            },
        }
    }

    open spec fn left(self) -> (nat, nat, nat, nat, nat) {
        match self {
            EventAccess::Event { .. } => steps_left(1),
            EventAccess::Part { .. } => steps_left(0),
        }
    }

    proof fn nears_end(self, reply: Reply, step: Step<Self, ()>) {
    }

    fn resume(self, reply: Reply) -> (step: Step<Self, ()>) {
        match self {
            EventAccess::Event { event_id, user_id } => match reply {
                Reply::Event(Some(_)) => Step::Ask(
                    EventAccess::Part { event_id, user_id },
                    Request::OneUserEvent(
                        Cond::is(UserEventTest::EventId(event_id)).and(
                            Cond::is(UserEventTest::UserId(user_id)),
                        ),
                    ),
                ),
                Reply::Event(None) => Step::Done(Err(Refusal::EventMissing)),
                _ => Step::Done(Err(Refusal::Internal)),
            },
            EventAccess::Part { event_id, user_id } => match reply {
                Reply::UserEvent(Some(_)) => Step::Done(Ok(())),
                Reply::UserEvent(None) => Step::Done(Err(Refusal::EventForbidden)),
                _ => Step::Done(Err(Refusal::Internal)),
            },
        }
    }
}

/// Shows an event.
pub enum GetEvent {
    Access { id: Id, access: EventAccess },
    Loading(LoadEvent),
}

/// Asks for an event.
pub fn get_event(auth: AuthUser, id: Id) -> (step: Step<GetEvent, EventResponse>)
    ensures
        step.waits_at(
            GetEvent::Access {
                id,
                access: EventAccess::Event { event_id: id, user_id: auth.user_id },
            },
        ),
        step matches Step::Ask(m, request) && m.asking(request),
{
    let user_id: Id = auth.user_id;
    Step::Ask(
        GetEvent::Access { id, access: EventAccess::Event { event_id: id, user_id } },
        ensure_event_access(id, user_id),
    )
}

impl Machine for GetEvent {
    type Out = EventResponse;

    open spec fn asking(self, request: Request) -> bool {
        match self {
            GetEvent::Access { id, access } => access.asking(request),
            GetEvent::Loading(load) => load.asking(request),
        }
    }

    open spec fn next(self, reply: Reply, step: Step<Self, EventResponse>) -> bool {
        match self {
            GetEvent::Access { id, access } => match step {
                Step::Ask(GetEvent::Access { id: i, access: a }, request) => i == id
                    && access.next(reply, Step::Ask(a, request)),
                Step::Ask(GetEvent::Loading(load), _) => load == (LoadEvent::Event { id })
                    && access.next(reply, Step::Done(Ok(()))),
                Step::Done(Err(why)) => access.next(reply, Step::Done(Err(why))),
                Step::Done(Ok(_)) => false,
            },
            // An event that cannot be read counts as one that does not exist.
            GetEvent::Loading(load) => match step {
                Step::Ask(GetEvent::Loading(l), request) => load.next(
                    reply,
                    Step::Ask(l, request),
                ),
                Step::Done(Ok(shown)) => load.next(reply, Step::Done(Ok(shown))),
                Step::Done(Err(why)) => why is EventNotFound && exists|e: Refusal|
                    #[trigger] load.next(reply, Step::Done(Err(e))),
                _ => false,
            },
        }
    }

    open spec fn left(self) -> (nat, nat, nat, nat, nat) {
        match self {
            GetEvent::Access { access, .. } => then_left(1, access.left()),
            GetEvent::Loading(load) => then_left(0, load.left()),
        }
    }

    proof fn nears_end(self, reply: Reply, step: Step<Self, EventResponse>) {
        match (self, step) {
            (
                GetEvent::Access { id, access },
                Step::Ask(GetEvent::Access { id: _, access: a }, request),
            ) => {
                access.nears_end(reply, Step::Ask(a, request));
            },
            (GetEvent::Loading(load), Step::Ask(GetEvent::Loading(l), request)) => {
                load.nears_end(reply, Step::Ask(l, request));
            },
            _ => {},
        }
    }

    fn resume(self, reply: Reply) -> (step: Step<Self, EventResponse>) {
        match self {
            GetEvent::Access { id, access } => match access.resume(reply) {
                Step::Ask(access, request) => Step::Ask(GetEvent::Access { id, access }, request),
                Step::Done(Ok(_)) => Step::Ask(
                    GetEvent::Loading(LoadEvent::Event { id }),
                    load_event_response(id),
                ),
                Step::Done(Err(why)) => Step::Done(Err(why)),
            },
            GetEvent::Loading(load) => match load.resume(reply) {
                Step::Ask(load, request) => Step::Ask(GetEvent::Loading(load), request),
                Step::Done(Ok(shown)) => Step::Done(Ok(shown)),
                Step::Done(Err(_)) => Step::Done(Err(Refusal::EventNotFound)),
            },
        }
    }
}

/// Shows the people in an event.
pub enum GetEventParticipants {
    Access { id: Id, access: EventAccess },
    Loading(LoadParticipants),
}

/// Asks for the people in an event.
pub fn get_event_participants(auth: AuthUser, id: Id) -> (step: Step<
    GetEventParticipants,
    Vec<ParticipantResponse>,
>)
    ensures
        step.waits_at(
            GetEventParticipants::Access {
                id,
                access: EventAccess::Event { event_id: id, user_id: auth.user_id },
            },
        ),
        step matches Step::Ask(m, request) && m.asking(request),
{
    let user_id: Id = auth.user_id;
    Step::Ask(
        GetEventParticipants::Access { id, access: EventAccess::Event { event_id: id, user_id } },
        ensure_event_access(id, user_id),
    )
}

impl Machine for GetEventParticipants {
    type Out = Vec<ParticipantResponse>;

    open spec fn asking(self, request: Request) -> bool {
        match self {
            GetEventParticipants::Access { id, access } => access.asking(request),
            GetEventParticipants::Loading(load) => load.asking(request),
        }
    }

    open spec fn next(self, reply: Reply, step: Step<Self, Vec<ParticipantResponse>>) -> bool {
        match self {
            GetEventParticipants::Access { id, access } => match step {
                Step::Ask(GetEventParticipants::Access { id: i, access: a }, request) => i == id
                    && access.next(reply, Step::Ask(a, request)),
                Step::Ask(GetEventParticipants::Loading(load), _) => load == (
                LoadParticipants::Rows { event_id: id }) && access.next(
                    reply,
                    Step::Done(Ok(())),
                ),
                Step::Done(Err(why)) => access.next(reply, Step::Done(Err(why))),
                Step::Done(Ok(_)) => false,
            },
            GetEventParticipants::Loading(load) => match step {
                Step::Ask(GetEventParticipants::Loading(l), request) => load.next(
                    reply,
                    Step::Ask(l, request),
                ),
                Step::Done(r) => load.next(reply, Step::Done(r)),
                _ => false,
            },
        }
    }

    open spec fn left(self) -> (nat, nat, nat, nat, nat) {
        match self {
            GetEventParticipants::Access { access, .. } => then_left(1, access.left()),
            GetEventParticipants::Loading(load) => then_left(0, load.left()),
        }
    }

    proof fn nears_end(self, reply: Reply, step: Step<Self, Vec<ParticipantResponse>>) {
        match (self, step) {
            (
                GetEventParticipants::Access { id, access },
                Step::Ask(GetEventParticipants::Access { id: _, access: a }, request),
            ) => {
                access.nears_end(reply, Step::Ask(a, request));
            },
            (GetEventParticipants::Loading(load), Step::Ask(GetEventParticipants::Loading(l), request)) => {
                load.nears_end(reply, Step::Ask(l, request));
            },
            _ => {},
        }
    }

    fn resume(self, reply: Reply) -> (step: Step<Self, Vec<ParticipantResponse>>) {
        match self {
            GetEventParticipants::Access { id, access } => match access.resume(reply) {
                Step::Ask(access, request) => Step::Ask(
                    GetEventParticipants::Access { id, access },
                    request,
                ),
                Step::Done(Ok(_)) => match load_participants(id) {
                    Step::Ask(load, request) => Step::Ask(
                        GetEventParticipants::Loading(load),
                        request,
                    ),
                    Step::Done(r) => Step::Done(r),
                },
                Step::Done(Err(why)) => Step::Done(Err(why)),
            },
            GetEventParticipants::Loading(load) => match load.resume(reply) {
                Step::Ask(load, request) => Step::Ask(GetEventParticipants::Loading(load), request),
                Step::Done(r) => Step::Done(r),
            },
        }
    }
}

} // verus!
