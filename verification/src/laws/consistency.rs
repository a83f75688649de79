//! What every request keeps true of the tables.

use crate::entities::{BusydayRow, Id, UserEventRow};
use crate::model::Tables;
use vstd::prelude::*;

verus! {

/// Nobody is taken twice on one day.
pub open spec fn no_day_twice(busydays: Map<Id, BusydayRow>) -> bool {
    forall|j: Id, k: Id|
        #![trigger busydays.dom().contains(j), busydays.dom().contains(k)]
        busydays.dom().contains(j) && busydays.dom().contains(k) && busydays[j].user_id
            == busydays[k].user_id && busydays[j].date == busydays[k].date ==> j == k
}

/// Nobody has two parts in one event.
pub open spec fn no_part_twice(parts: Map<Id, UserEventRow>) -> bool {
    forall|j: Id, k: Id|
        #![trigger parts.dom().contains(j), parts.dom().contains(k)]
        parts.dom().contains(j) && parts.dom().contains(k) && parts[j].event_id
            == parts[k].event_id && parts[j].user_id == parts[k].user_id ==> j == k
}

/// Every part is a part in an event that exists; an owner's part is its
/// creator's, and accepted.
pub open spec fn parts_belong(t: Tables) -> bool {
    forall|k: Id| #[trigger]
        t.user_events.dom().contains(k) ==> {
            &&& t.events.dom().contains(t.user_events[k].event_id)
            &&& t.user_events[k].role is Owner ==> {
                &&& t.user_events[k].user_id == t.events[t.user_events[k].event_id].creator_id
                &&& t.user_events[k].response_status is Accepted
            }
        }
}

/// `day` is the reservation of a user's day for an event.
pub open spec fn reserves(t: Tables, day: Id, user: Id, event_id: Id) -> bool {
    &&& t.busydays.dom().contains(day)
    &&& t.busydays[day].user_id == user
    &&& t.busydays[day].event_id == Some(event_id)
    &&& t.busydays[day].date == t.events[event_id].date
}

/// `part` is a user's acceptance of an event.
pub open spec fn accepts(t: Tables, part: Id, user: Id, event_id: Id) -> bool {
    &&& t.user_events.dom().contains(part)
    &&& t.user_events[part].user_id == user
    &&& t.user_events[part].event_id == event_id
    &&& t.user_events[part].response_status is Accepted
}

/// A day that is taken for an event is the day of that event, and is taken from
/// a user who has accepted it.
pub open spec fn days_are_backed(t: Tables) -> bool {
    forall|day: Id| #[trigger]
        t.busydays.dom().contains(day) && t.busydays[day].event_id is Some ==> {
            let e = t.busydays[day].event_id->0;
            &&& t.events.dom().contains(e)
            &&& t.busydays[day].date == t.events[e].date
            &&& exists|part: Id| #[trigger] accepts(t, part, t.busydays[day].user_id, e)
        }
}

/// The owner of an event that is still open has its day taken for it.
pub open spec fn owners_are_reserved(t: Tables) -> bool {
    forall|part: Id| #[trigger]
        t.user_events.dom().contains(part) && t.user_events[part].role is Owner
            && t.events[t.user_events[part].event_id].status.open() ==> exists|day: Id| #[trigger]
            reserves(t, day, t.user_events[part].user_id, t.user_events[part].event_id)
}

/// `part` is a participant's acceptance of an event, and `day` the day that is
/// taken for it.
pub open spec fn holds_day(t: Tables, part: Id, day: Id, event_id: Id) -> bool {
    &&& t.user_events[part].role is Participant
    &&& accepts(t, part, t.user_events[part].user_id, event_id)
    &&& reserves(t, day, t.user_events[part].user_id, event_id)
}

/// A confirmed event has a participant whose day is taken for it: the one whose
/// acceptance was the last.
pub open spec fn confirmations_are_reserved(t: Tables) -> bool {
    forall|e: Id| #[trigger]
        t.events.dom().contains(e) && t.events[e].status is Confirmed ==> exists|part: Id, day: Id|
            #[trigger] holds_day(t, part, day, e)
}

/// A confirmed event has been accepted by all its participants.
pub open spec fn confirmed_by_all(t: Tables) -> bool {
    forall|part: Id| #[trigger]
        t.user_events.dom().contains(part) && t.events[t.user_events[part].event_id].status
            is Confirmed ==> t.user_events[part].response_status is Accepted
}

/// A wish place that is still wished for has no event of its visit.
pub open spec fn wishes_are_open(t: Tables) -> bool {
    forall|k: Id| #[trigger]
        t.wish_places.dom().contains(k) && t.wish_places[k].status is Active
            ==> t.wish_places[k].visited_event_id is None
}

/// The tables are as the requests keep them.
pub open spec fn consistent(t: Tables) -> bool {
    &&& t.keyed()
    &&& no_day_twice(t.busydays)
    &&& no_part_twice(t.user_events)
    &&& parts_belong(t)
    &&& days_are_backed(t)
    &&& owners_are_reserved(t)
    &&& confirmations_are_reserved(t)
    &&& confirmed_by_all(t)
    &&& wishes_are_open(t)
}

} // verus!
