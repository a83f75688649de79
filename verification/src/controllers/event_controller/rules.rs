//! What the requests on events have in common.

use crate::entities::{BusydayRow, EventRow, EventStatus, Id, UserEventRow};
use crate::refusal::Refusal;
use crate::store::{BusydayTest, Cond, EventTest, Request};
use crate::text::{has_part, occurs_in};
use crate::time::Date;
use vstd::prelude::*;

verus! {

/// The day on which a user is taken.
pub open spec fn busy_on(user: Id, date: Date) -> spec_fn(BusydayRow) -> bool {
    |row: BusydayRow| row.user_id == user && row.date == date
}

/// Asks whether a user's day is taken: it is if a row comes back.
pub fn ensure_day_is_free(user_id: Id, date: Date) -> (r: Request)
    ensures
        r matches Request::OneBusyday(c) && c.means(busy_on(user_id, date)),
{
    Request::OneBusyday(
        Cond::is(BusydayTest::UserId(user_id)).and(Cond::is(BusydayTest::DateIs(date))),
    )
}

/// The event with this identifier.
pub open spec fn event_of(id: Id) -> spec_fn(EventRow) -> bool {
    |event: EventRow| event.id == id
}

/// The event with this identifier, if it is one of this creator.
pub open spec fn event_by(id: Id, creator: Id) -> spec_fn(EventRow) -> bool {
    |event: EventRow| event.id == id && event.creator_id == creator
}

/// The participants of an event who have not declined; its owner is none.
pub open spec fn still_invited(event_id: Id) -> spec_fn(UserEventRow) -> bool {
    |row: UserEventRow|
        row.event_id == event_id && row.role is Participant && !(row.response_status is Declined)
}

pub fn find_event(id: Id) -> (r: Request)
    ensures
        r matches Request::OneEvent(c) && c.means(event_of(id)),
{
    Request::OneEvent(Cond::is(EventTest::Id(id)))
}

pub fn find_event_by(id: Id, creator: Id) -> (r: Request)
    ensures
        r matches Request::OneEvent(c) && c.means(event_by(id, creator)),
{
    Request::OneEvent(Cond::is(EventTest::Id(id)).and(Cond::is(EventTest::CreatorId(creator))))
}

/// Whether an event can still be answered and completed.
pub fn is_open(status: EventStatus) -> (r: bool)
    ensures
        r == status.open(),
{
    !matches!(status, EventStatus::Canceled | EventStatus::Completed)
}

/// The text of a database error that reports a violated uniqueness.
pub open spec fn reports_duplicate(message: Seq<char>) -> bool {
    occurs_in("unique"@, message) || occurs_in("duplicate key"@, message)
}

/// Why a request is refused whose reservation failed with this text.
pub open spec fn constraint_refusal(message: Seq<char>) -> Refusal {
    if reports_duplicate(message) {
        Refusal::DayReserved
    } else {
        Refusal::Internal
    }
}

/// Why a request is refused whose reservation failed with this text.
pub fn map_db_constraint_error(message: &str) -> (r: Refusal)
    ensures
        r == constraint_refusal(message@),
{
    if has_part(message, "unique") || has_part(message, "duplicate key") {
        return Refusal::DayReserved;
    }
    Refusal::Internal
}

} // verus!
