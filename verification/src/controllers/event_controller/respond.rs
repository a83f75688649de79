//! Answering an invitation.

use crate::controllers::event_controller::load::{load_event_response, LoadEvent};
use crate::controllers::event_controller::rules::{
    busy_on, constraint_refusal, ensure_day_is_free, event_of, find_event, is_open,
    map_db_constraint_error, still_invited,
};
use crate::controllers::models::{AuthUser, EventResponse};
use crate::entities::{
    BusydayRow, EventStatus, Id, UserEventResponse, UserEventRole, UserEventRow,
};
use crate::machine::{steps_left, then_left, Machine, Step};
use crate::refusal::{Refusal, StatusCode};
use crate::store::{
    BusydayTest, Cond, EventChanges, NewBusyday, Order, Reply, Request, UserEventTest,
};
use crate::time::Date;
use vstd::prelude::*;

verus! {

/// An invitation of `user` to an event, whatever the answer.
pub open spec fn invitation(event_id: Id, user: Id) -> spec_fn(UserEventRow) -> bool {
    |row: UserEventRow|
        row.event_id == event_id && row.user_id == user && row.role is Participant
}

/// An invitation of `user` to an event that `user` has not answered.
pub open spec fn open_invitation(event_id: Id, user: Id) -> spec_fn(UserEventRow) -> bool {
    |row: UserEventRow|
        row.event_id == event_id && row.user_id == user && row.role is Participant
            && row.response_status is Pending
}

/// An invitation of `user` to an event that `user` has not declined.
pub open spec fn kept_invitation(event_id: Id, user: Id) -> spec_fn(UserEventRow) -> bool {
    |row: UserEventRow|
        row.event_id == event_id && row.user_id == user && row.role is Participant && (
        row.response_status is Pending || row.response_status is Accepted)
}

/// The participants of an event who have not accepted.
pub open spec fn not_accepted(event_id: Id) -> spec_fn(UserEventRow) -> bool {
    |row: UserEventRow|
        row.event_id == event_id && row.role is Participant && !(row.response_status is Accepted)
}

/// The first of `rows` that is not answered.
pub open spec fn pending_in(rows: Seq<UserEventRow>) -> Option<Id>
    decreases rows.len(),
{
    if rows.len() == 0 {
        None
    } else if rows[0].response_status is Pending {
        Some(rows[0].id)
    } else {
        pending_in(rows.skip(1))
    }
}

/// The first of `rows` that is not answered.
fn first_pending(rows: &Vec<UserEventRow>) -> (part: Option<Id>)
    ensures
        part == pending_in(rows@),
{
    assert(rows@.skip(0) == rows@);
    for i in 0..rows.len()
        invariant
            pending_in(rows@.skip(i as int)) == pending_in(rows@),
    {
        assert(rows@.skip(i as int)[0] == rows@[i as int]);
        assert(rows@.skip(i as int).skip(1) == rows@.skip(i + 1));
        if matches!(rows[i].response_status, UserEventResponse::Pending) {
            return Some(rows[i].id);
        }
    }
    None
}

/// Accepts an invitation. Once nobody else's acceptance is missing, the day is
/// taken and the event is confirmed.
pub enum AcceptEvent {
    Begin { me: Id, id: Id },
    Event { me: Id, id: Id },
    Invitation { me: Id, id: Id, date: Date },
    /// Is the day taken?
    Day { me: Id, id: Id, date: Date, part: Id },
    Answer { me: Id, id: Id, date: Date, part: Id },
    /// Is another acceptance missing?
    Others { me: Id, id: Id, date: Date },
    Reservation { me: Id, id: Id, date: Date },
    Confirm { id: Id },
    Commit { id: Id },
    Loading(LoadEvent),
}

/// Asks to accept the invitation to an event.
pub fn accept_event(auth: AuthUser, id: Id) -> (step: Step<AcceptEvent, EventResponse>)
    ensures
        step.waits_at(AcceptEvent::Begin { me: auth.user_id, id }),
        step matches Step::Ask(m, request) && m.asking(request),
{
    Step::Ask(AcceptEvent::Begin { me: auth.user_id, id }, Request::Begin)
}

impl Machine for AcceptEvent {
    type Out = EventResponse;

    open spec fn asking(self, request: Request) -> bool {
        match self {
            AcceptEvent::Begin { me, id } => request is Begin,
            AcceptEvent::Event { me, id } => {
                &&& request matches Request::OneEvent(c)
                &&& c.means(event_of(id))
            },
            AcceptEvent::Invitation { me, id, date } => {
                &&& request matches Request::AllUserEvents(c, _)
                &&& c.means(invitation(id, me))
            },
            AcceptEvent::Day { me, id, date, part } => {
                &&& request matches Request::OneBusyday(c)
                &&& c.means(busy_on(me, date))
            },
            AcceptEvent::Answer { me, id, date, part } => request == Request::UpdateUserEvent(
                part,
                UserEventResponse::Accepted,
            ),
            AcceptEvent::Others { me, id, date } => {
                &&& request matches Request::OneUserEvent(c)
                &&& c.means(not_accepted(id))
            },
            AcceptEvent::Reservation { me, id, date } => {
                &&& request matches Request::InsertBusyday(row)
                &&& row.user_id == me
                &&& row.date == date
                &&& row.event_id == Some(id)
            },
            AcceptEvent::Confirm { id } => {
                &&& request matches Request::UpdateEvent(event_id, changes)
                &&& event_id == id
                &&& changes.status == Some(EventStatus::Confirmed)
                &&& changes.memory_image_base64 is None
            },
            AcceptEvent::Commit { id } => request is Commit,
            AcceptEvent::Loading(load) => load.asking(request),
        }
    }

    open spec fn next(self, reply: Reply, step: Step<Self, EventResponse>) -> bool {
        match self {
            AcceptEvent::Begin { me, id } => match reply {
                Reply::Done => step.waits_at(AcceptEvent::Event { me, id }),
                _ => step.refused(Refusal::Internal),
            },
            AcceptEvent::Event { me, id } => match reply {
                Reply::Event(Some(event)) => if event.status.open() {
                    step.waits_at(AcceptEvent::Invitation { me, id, date: event.date })
                } else {
                    step.refused(Refusal::EventClosed)
                },
                Reply::Event(None) => step.refused(Refusal::EventNotFound),
                _ => step.refused(Refusal::Internal),
            },
            AcceptEvent::Invitation { me, id, date } => match reply {
                Reply::UserEvents(rows) => match pending_in(rows@) {
                    Some(part) => step.waits_at(AcceptEvent::Day { me, id, date, part }),
                    None => if rows@.len() == 0 {
                        step.refused(Refusal::NoPendingInvitation)
                    } else {
                        step.refused(Refusal::InvitationAnswered)
                    },
                },
                _ => step.refused(Refusal::Internal),
            },
            AcceptEvent::Day { me, id, date, part } => match reply {
                Reply::Busyday(None) => step.waits_at(AcceptEvent::Answer { me, id, date, part }),
                Reply::Busyday(Some(_)) => step.refused(Refusal::DayReserved),
                _ => step.refused(Refusal::Internal),
            },
            AcceptEvent::Answer { me, id, date, part } => match reply {
                Reply::Done => step.waits_at(AcceptEvent::Others { me, id, date }),
                _ => step.refused(Refusal::Internal),
            },
            AcceptEvent::Others { me, id, date } => match reply {
                Reply::UserEvent(Some(_)) => step.waits_at(AcceptEvent::Commit { id }),
                Reply::UserEvent(None) => step.waits_at(
                    AcceptEvent::Reservation { me, id, date },
                ),
                _ => step.refused(Refusal::Internal),
            },
            AcceptEvent::Reservation { me, id, date } => match reply {
                Reply::Done => step.waits_at(AcceptEvent::Confirm { id }),
                Reply::Fault(message) => step.refused(constraint_refusal(message@)),
                _ => step.refused(Refusal::Internal),
            },
            AcceptEvent::Confirm { id } => match reply {
                Reply::Done => step.waits_at(AcceptEvent::Commit { id }),
                _ => step.refused(Refusal::Internal),
            },
            AcceptEvent::Commit { id } => match reply {
                Reply::Done => step.waits_at(AcceptEvent::Loading(LoadEvent::Event { id })),
                _ => step.refused(Refusal::Internal),
            },
            AcceptEvent::Loading(load) => match step {
                Step::Ask(AcceptEvent::Loading(l), request) => load.next(
                    reply,
                    Step::Ask(l, request),
                ),
                Step::Done(r) => load.next(reply, Step::Done(r)),
                _ => false,
            },
        }
    }

    open spec fn left(self) -> (nat, nat, nat, nat, nat) {
        match self {
            AcceptEvent::Begin { .. } => steps_left(9),
            AcceptEvent::Event { .. } => steps_left(8),
            AcceptEvent::Invitation { .. } => steps_left(7),
            AcceptEvent::Day { .. } => steps_left(6),
            AcceptEvent::Answer { .. } => steps_left(5),
            AcceptEvent::Others { .. } => steps_left(4),
            AcceptEvent::Reservation { .. } => steps_left(3),
            AcceptEvent::Confirm { .. } => steps_left(2),
            AcceptEvent::Commit { .. } => steps_left(1),
            AcceptEvent::Loading(load) => then_left(0, load.left()),
        }
    }

    proof fn nears_end(self, reply: Reply, step: Step<Self, EventResponse>) {
        if let AcceptEvent::Loading(load) = self {
            match step {
                Step::Ask(AcceptEvent::Loading(l), request) => {
                    load.nears_end(reply, Step::Ask(l, request));
                },
                _ => {},
            }
        }
    }

    fn resume(self, reply: Reply) -> (step: Step<Self, EventResponse>) {
        match self {
            AcceptEvent::Begin { me, id } => match reply {
                Reply::Done => Step::Ask(AcceptEvent::Event { me, id }, find_event(id)),
                _ => Step::Done(Err(Refusal::Internal)),
            },
            AcceptEvent::Event { me, id } => match reply {
                Reply::Event(Some(event)) => {
                    if !is_open(event.status) {
                        return Step::Done(Err(Refusal::EventClosed));
                    }
                    let cond = Cond::is(UserEventTest::EventId(id)).and(
                        Cond::is(UserEventTest::UserId(me)),
                    ).and(Cond::is(UserEventTest::RoleIs(UserEventRole::Participant)));
                    Step::Ask(
                        AcceptEvent::Invitation { me, id, date: event.date },
                        Request::AllUserEvents(cond, Order::Unspecified),
                    )
                },
                Reply::Event(None) => Step::Done(Err(Refusal::EventNotFound)),
                _ => Step::Done(Err(Refusal::Internal)),
            },
            AcceptEvent::Invitation { me, id, date } => match reply {
                Reply::UserEvents(rows) => match first_pending(&rows) {
                    Some(part) => Step::Ask(
                        AcceptEvent::Day { me, id, date, part },
                        ensure_day_is_free(me, date),
                    ),
                    None => {
                        if rows.len() == 0 {
                            Step::Done(Err(Refusal::NoPendingInvitation))
                        } else {
                            Step::Done(Err(Refusal::InvitationAnswered))
                        }
                    },
                },
                _ => Step::Done(Err(Refusal::Internal)),
            },
            AcceptEvent::Day { me, id, date, part } => match reply {
                Reply::Busyday(None) => Step::Ask(
                    AcceptEvent::Answer { me, id, date, part },
                    Request::UpdateUserEvent(part, UserEventResponse::Accepted),
                ),
                Reply::Busyday(Some(_)) => Step::Done(Err(Refusal::DayReserved)),
                _ => Step::Done(Err(Refusal::Internal)),
            },
            AcceptEvent::Answer { me, id, date, part } => match reply {
                Reply::Done => {
                    let cond = Cond::is(UserEventTest::EventId(id)).and(
                        Cond::is(UserEventTest::RoleIs(UserEventRole::Participant)),
                    ).and(Cond::is(UserEventTest::ResponseIsNot(UserEventResponse::Accepted)));
                    Step::Ask(AcceptEvent::Others { me, id, date }, Request::OneUserEvent(cond))
                },
                _ => Step::Done(Err(Refusal::Internal)),
            },
            AcceptEvent::Others { me, id, date } => match reply {
                Reply::UserEvent(Some(_)) => Step::Ask(AcceptEvent::Commit { id }, Request::Commit),
                Reply::UserEvent(None) => Step::Ask(
                    AcceptEvent::Reservation { me, id, date },
                    Request::InsertBusyday(NewBusyday { user_id: me, date, event_id: Some(id) }),
                ),
                _ => Step::Done(Err(Refusal::Internal)),
            },
            AcceptEvent::Reservation { me, id, date } => match reply {
                Reply::Fault(message) => Step::Done(
                    Err(map_db_constraint_error(message.as_str())),
                ),
                Reply::Done => Step::Ask(
                    AcceptEvent::Confirm { id },
                    Request::UpdateEvent(
                        id,
                        EventChanges {
                            status: Some(EventStatus::Confirmed),
                            memory_image_base64: None,
                        },
                    ),
                ),
                _ => Step::Done(Err(Refusal::Internal)),
            },
            AcceptEvent::Confirm { id } => match reply {
                Reply::Done => Step::Ask(AcceptEvent::Commit { id }, Request::Commit),
                _ => Step::Done(Err(Refusal::Internal)),
            },
            AcceptEvent::Commit { id } => match reply {
                Reply::Done => Step::Ask(
                    AcceptEvent::Loading(LoadEvent::Event { id }),
                    load_event_response(id),
                ),
                _ => Step::Done(Err(Refusal::Internal)),
            },
            AcceptEvent::Loading(load) => match load.resume(reply) {
                Step::Ask(load, request) => Step::Ask(AcceptEvent::Loading(load), request),
                Step::Done(r) => Step::Done(r),
            },
        }
    }
}

/// Declines an invitation and frees the day. An event whose last participant
/// declines is canceled, and frees every day it took; a confirmed event waits
/// for answers again.
pub enum DeclineEvent {
    Begin { me: Id, id: Id },
    Event { me: Id, id: Id },
    Invitation { me: Id, id: Id, status: EventStatus },
    Answer { me: Id, id: Id, status: EventStatus, part: Id },
    Free { me: Id, id: Id, status: EventStatus },
    Count { id: Id, status: EventStatus },
    FreeAll { id: Id },
    Status { id: Id, to: Option<EventStatus> },
    Commit { id: Id },
}

/// Asks to decline the invitation to an event.
pub fn decline_event(auth: AuthUser, id: Id) -> (step: Step<DeclineEvent, StatusCode>)
    ensures
        step.waits_at(DeclineEvent::Begin { me: auth.user_id, id }),
        step matches Step::Ask(m, request) && m.asking(request),
{
    Step::Ask(DeclineEvent::Begin { me: auth.user_id, id }, Request::Begin)
}

fn set_status(id: Id, to: Option<EventStatus>) -> (step: Step<DeclineEvent, StatusCode>)
    ensures
        step.waits_at(DeclineEvent::Status { id, to }),
        step matches Step::Ask(m, request) && m.asking(request),
{
    Step::Ask(
        DeclineEvent::Status { id, to },
        Request::UpdateEvent(id, EventChanges { status: to, memory_image_base64: None }),
    )
}

impl Machine for DeclineEvent {
    type Out = StatusCode;

    open spec fn asking(self, request: Request) -> bool {
        match self {
            DeclineEvent::Begin { me, id } => request is Begin,
            DeclineEvent::Event { me, id } => {
                &&& request matches Request::OneEvent(c)
                &&& c.means(event_of(id))
            },
            DeclineEvent::Invitation { me, id, status } => {
                &&& request matches Request::OneUserEvent(c)
                &&& c.means(kept_invitation(id, me))
            },
            DeclineEvent::Answer { me, id, status, part } => request == Request::UpdateUserEvent(
                part,
                UserEventResponse::Declined,
            ),
            DeclineEvent::Free { me, id, status } => {
                &&& request matches Request::DeleteBusydays(c)
                &&& c.means(|row: BusydayRow| row.event_id == Some(id) && row.user_id == me)
            },
            DeclineEvent::Count { id, status } => {
                &&& request matches Request::CountUserEvents(c)
                &&& c.means(still_invited(id))
            },
            DeclineEvent::FreeAll { id } => {
                &&& request matches Request::DeleteBusydays(c)
                &&& c.means(|row: BusydayRow| row.event_id == Some(id))
            },
            DeclineEvent::Status { id, to } => {
                &&& request matches Request::UpdateEvent(event_id, changes)
                &&& event_id == id
                &&& changes.status == to
                &&& changes.memory_image_base64 is None
            },
            DeclineEvent::Commit { id } => request is Commit,
        }
    }

    open spec fn next(self, reply: Reply, step: Step<Self, StatusCode>) -> bool {
        match self {
            DeclineEvent::Begin { me, id } => match reply {
                Reply::Done => step.waits_at(DeclineEvent::Event { me, id }),
                _ => step.refused(Refusal::Internal),
            },
            DeclineEvent::Event { me, id } => match reply {
                Reply::Event(Some(event)) => if event.status.open() {
                    step.waits_at(DeclineEvent::Invitation { me, id, status: event.status })
                } else {
                    step.refused(Refusal::EventClosed)
                },
                Reply::Event(None) => step.refused(Refusal::EventNotFound),
                _ => step.refused(Refusal::Internal),
            },
            DeclineEvent::Invitation { me, id, status } => match reply {
                Reply::UserEvent(Some(row)) => step.waits_at(
                    DeclineEvent::Answer { me, id, status, part: row.id },
                ),
                Reply::UserEvent(None) => step.refused(Refusal::NotParticipant),
                _ => step.refused(Refusal::Internal),
            },
            DeclineEvent::Answer { me, id, status, part } => match reply {
                Reply::Done => step.waits_at(DeclineEvent::Free { me, id, status }),
                _ => step.refused(Refusal::Internal),
            },
            DeclineEvent::Free { me, id, status } => match reply {
                Reply::Count(_) => step.waits_at(DeclineEvent::Count { id, status }),
                _ => step.refused(Refusal::Internal),
            },
            DeclineEvent::Count { id, status } => match reply {
                Reply::Count(left) => if left == 0 {
                    step.waits_at(DeclineEvent::FreeAll { id })
                } else if status is Confirmed {
                    step.waits_at(DeclineEvent::Status { id, to: Some(EventStatus::Pending) })
                } else {
                    step.waits_at(DeclineEvent::Status { id, to: None })
                },
                _ => step.refused(Refusal::Internal),
            },
            DeclineEvent::FreeAll { id } => match reply {
                Reply::Count(_) => step.waits_at(
                    DeclineEvent::Status { id, to: Some(EventStatus::Canceled) },
                ),
                _ => step.refused(Refusal::Internal),
            },
            DeclineEvent::Status { id, to } => match reply {
                Reply::Done => step.waits_at(DeclineEvent::Commit { id }),
                _ => step.refused(Refusal::Internal),
            },
            DeclineEvent::Commit { id } => match reply {
                Reply::Done => step == Step::<Self, StatusCode>::Done(Ok(StatusCode::NoContent)),
                _ => step.refused(Refusal::Internal),
            },
        }
    }

    open spec fn left(self) -> (nat, nat, nat, nat, nat) {
        match self {
            DeclineEvent::Begin { .. } => steps_left(8),
            DeclineEvent::Event { .. } => steps_left(7),
            DeclineEvent::Invitation { .. } => steps_left(6),
            DeclineEvent::Answer { .. } => steps_left(5),
            DeclineEvent::Free { .. } => steps_left(4),
            DeclineEvent::Count { .. } => steps_left(3),
            DeclineEvent::FreeAll { .. } => steps_left(2),
            DeclineEvent::Status { .. } => steps_left(1),
            DeclineEvent::Commit { .. } => steps_left(0),
        }
    }

    proof fn nears_end(self, reply: Reply, step: Step<Self, StatusCode>) {
    }

    fn resume(self, reply: Reply) -> (step: Step<Self, StatusCode>) {
        match self {
            DeclineEvent::Begin { me, id } => match reply {
                Reply::Done => Step::Ask(DeclineEvent::Event { me, id }, find_event(id)),
                _ => Step::Done(Err(Refusal::Internal)),
            },
            DeclineEvent::Event { me, id } => match reply {
                Reply::Event(Some(event)) => {
                    if !is_open(event.status) {
                        return Step::Done(Err(Refusal::EventClosed));
                    }
                    let kept = Cond::is(
                        UserEventTest::ResponseIs(UserEventResponse::Pending),
                    ).or(Cond::is(UserEventTest::ResponseIs(UserEventResponse::Accepted)));
                    let cond = Cond::is(UserEventTest::EventId(id)).and(
                        Cond::is(UserEventTest::UserId(me)),
                    ).and(Cond::is(UserEventTest::RoleIs(UserEventRole::Participant))).and(kept);
                    Step::Ask(
                        DeclineEvent::Invitation { me, id, status: event.status },
                        Request::OneUserEvent(cond),
                    )
                },
                Reply::Event(None) => Step::Done(Err(Refusal::EventNotFound)),
                _ => Step::Done(Err(Refusal::Internal)),
            },
            DeclineEvent::Invitation { me, id, status } => match reply {
                Reply::UserEvent(Some(row)) => Step::Ask(
                    DeclineEvent::Answer { me, id, status, part: row.id },
                    Request::UpdateUserEvent(row.id, UserEventResponse::Declined),
                ),
                Reply::UserEvent(None) => Step::Done(Err(Refusal::NotParticipant)),
                _ => Step::Done(Err(Refusal::Internal)),
            },
            DeclineEvent::Answer { me, id, status, part } => match reply {
                Reply::Done => Step::Ask(
                    DeclineEvent::Free { me, id, status },
                    Request::DeleteBusydays(
                        Cond::is(BusydayTest::EventId(id)).and(Cond::is(BusydayTest::UserId(me))),
                    ),
                ),
                _ => Step::Done(Err(Refusal::Internal)),
            },
            DeclineEvent::Free { me, id, status } => match reply {
                Reply::Count(_) => Step::Ask(
                    DeclineEvent::Count { id, status },
                    Request::CountUserEvents(
                        Cond::is(UserEventTest::EventId(id)).and(
                            Cond::is(UserEventTest::RoleIs(UserEventRole::Participant)),
                        ).and(Cond::is(UserEventTest::ResponseIsNot(UserEventResponse::Declined))),
                    ),
                ),
                _ => Step::Done(Err(Refusal::Internal)),
            },
            DeclineEvent::Count { id, status } => match reply {
                Reply::Count(left) => {
                    if left == 0 {
                        Step::Ask(
                            DeclineEvent::FreeAll { id },
                            Request::DeleteBusydays(Cond::is(BusydayTest::EventId(id))),
                        )
                    } else if matches!(status, EventStatus::Confirmed) {
                        set_status(id, Some(EventStatus::Pending))
                    } else {
                        set_status(id, None)
                    }
                },
                _ => Step::Done(Err(Refusal::Internal)),
            },
            DeclineEvent::FreeAll { id } => match reply {
                Reply::Count(_) => set_status(id, Some(EventStatus::Canceled)),
                _ => Step::Done(Err(Refusal::Internal)),
            },
            DeclineEvent::Status { id, to } => match reply {
                Reply::Done => Step::Ask(DeclineEvent::Commit { id }, Request::Commit),
                _ => Step::Done(Err(Refusal::Internal)),
            },
            DeclineEvent::Commit { id } => match reply {
                Reply::Done => Step::Done(Ok(StatusCode::NoContent)),
                _ => Step::Done(Err(Refusal::Internal)),
            },
        }
    }
}

} // verus!
