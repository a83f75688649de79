//! What the lists of events hold.

use crate::controllers::event_controller::list::{
    get_events, get_events_on, get_pending_events, get_waiting_events, get_waiting_events_on,
    ListEvents, Listing,
};
use crate::controllers::models::{AuthUser, EventResponse, EventScope, EventScopeQuery};
use crate::entities::{EventRow, Id};
use crate::laws::listing::{
    created_events_are_listed, has_part, ids_shown, part_ids, shows_each, shows_list,
    shows_listing, wanted_events_are_listed, what_is_listed,
};
use crate::laws::reading::shows_stored_event;
use crate::machine::{Machine, Step};
use crate::model::{begun, events_in_order, lists, runs, Running, Tables};
use crate::store::Order;
use crate::time::{day_lt, Date};
use vstd::prelude::*;

verus! {

/// What a list of events says, event by event.
proof fn list_says(
    t: Tables,
    passes: spec_fn(EventRow) -> bool,
    order: Order,
    found: Seq<EventResponse>,
)
    requires
        t.keyed(),
        shows_list(t, passes, order, found),
    ensures
        forall|i: int, j: int|
            0 <= i < j < found.len() ==> {
                let a = t.events[(#[trigger] found[i]).id].date;
                let b = t.events[(#[trigger] found[j]).id].date;
                &&& found[i].id != found[j].id
                &&& order is Ascending ==> a.le(b)
                &&& order is Descending ==> b.le(a)
            },
        forall|i: int|
            0 <= i < found.len() ==> t.events.dom().contains((#[trigger] found[i]).id)
                && shows_stored_event(t, found[i].id, found[i]),
        forall|id: Id|
            (exists|i: int| 0 <= i < found.len() && (#[trigger] found[i]).id == id) <==> (
            #[trigger] t.events.dom().contains(id) && passes(t.events[id])),
{
    what_is_listed(t, passes, order, found);
    let ids = ids_shown(found);
    let rows = choose|rows: Seq<EventRow>|
        {
            &&& lists(t.events, passes, rows)
            &&& events_in_order(rows, order)
            &&& #[trigger] shows_each(t, rows, found)
        };
    assert forall|i: int| 0 <= i < found.len() implies {
        &&& (#[trigger] found[i]).id == rows[i].id
        &&& t.events.dom().contains(found[i].id)
        &&& t.events[found[i].id] == rows[i]
        &&& shows_stored_event(t, found[i].id, found[i])
    } by {
        assert(shows_stored_event(t, rows[i].id, found[i]));
        assert(t.events.dom().contains(rows[i].id));
    }
    assert forall|i: int, j: int| 0 <= i < j < found.len() implies {
        let a = t.events[(#[trigger] found[i]).id].date;
        let b = t.events[(#[trigger] found[j]).id].date;
        &&& found[i].id != found[j].id
        &&& order is Ascending ==> a.le(b)
        &&& order is Descending ==> b.le(a)
    } by {
        assert(rows[i].id != rows[j].id);
    }
    assert forall|id: Id|
        (exists|i: int| 0 <= i < found.len() && (#[trigger] found[i]).id == id) <==> (
        #[trigger] t.events.dom().contains(id) && passes(t.events[id])) by {
        if exists|i: int| 0 <= i < found.len() && (#[trigger] found[i]).id == id {
            let i = choose|i: int| 0 <= i < found.len() && (#[trigger] found[i]).id == id;
            assert(ids[i] == id);
            assert(ids.contains(id));
        }
        if t.events.dom().contains(id) && passes(t.events[id]) {
            assert(ids.contains(id));
            let i = choose|i: int| 0 <= i < ids.len() && ids[i] == id;
            assert(found[i].id == id);
        }
    }
}

/// What a listing for `me` says, event by event.
proof fn listing_says(t: Tables, me: Id, listing: Listing, found: Seq<EventResponse>)
    requires
        t.keyed(),
        shows_listing(t, me, listing, found),
    ensures
        forall|i: int, j: int|
            0 <= i < j < found.len() ==> {
                let a = t.events[(#[trigger] found[i]).id].date;
                let b = t.events[(#[trigger] found[j]).id].date;
                &&& found[i].id != found[j].id
                &&& listing.order() is Ascending ==> a.le(b)
                &&& listing.order() is Descending ==> b.le(a)
            },
        forall|i: int|
            0 <= i < found.len() ==> t.events.dom().contains((#[trigger] found[i]).id)
                && shows_stored_event(t, found[i].id, found[i]),
        forall|id: Id|
            (exists|i: int| 0 <= i < found.len() && (#[trigger] found[i]).id == id) <==> {
                &&& #[trigger] t.events.dom().contains(id)
                &&& has_part(t, listing.parts(me), id)
                &&& listing.events(seq![id])(t.events[id])
            },
{
    let ids = choose|ids: Seq<Id>| #[trigger]
        part_ids(t, listing.parts(me), ids) && shows_list(
            t,
            listing.events(ids),
            listing.order(),
            found,
        );
    list_says(t, listing.events(ids), listing.order(), found);
    assert forall|id: Id|
        (exists|i: int| 0 <= i < found.len() && (#[trigger] found[i]).id == id) <==> {
            &&& #[trigger] t.events.dom().contains(id)
            &&& has_part(t, listing.parts(me), id)
            &&& listing.events(seq![id])(t.events[id])
        } by {
        if t.events.dom().contains(id) {
            assert(seq![id][0] == id);
            assert(seq![id].contains(id));
            assert(ids.contains(id) <==> has_part(t, listing.parts(me), id));
        }
    }
}

/// The list of created events holds exactly the events whose creator the user is,
/// each once and as it is stored, earliest first.
pub proof fn created_list(
    n: nat,
    t: Tables,
    auth: AuthUser,
    query: EventScopeQuery,
    today: Date,
    first: Step<ListEvents, Vec<EventResponse>>,
    last: Running<ListEvents>,
)
    requires
        t.keyed(),
        call_ensures(get_events_on, (auth, query, today), first),
        query.scope == Some(EventScope::Created),
        runs(false, n, begun(first, t), last),
        last.step is Done,
    ensures
        last.session.stored == t,
        last.step matches Step::Done(Ok(found)) && {
            &&& forall|i: int, j: int|
                0 <= i < j < found@.len() ==> {
                    &&& (#[trigger] found@[i]).id != (#[trigger] found@[j]).id
                    &&& !day_lt(
                        t.events[found@[j].id].date.ymd(),
                        t.events[found@[i].id].date.ymd(),
                    )
                }
            &&& forall|i: int|
                0 <= i < found@.len() ==> t.events.dom().contains((#[trigger] found@[i]).id)
                    && shows_stored_event(t, found@[i].id, found@[i])
            &&& forall|id: Id| #[trigger]
                t.events.dom().contains(id) ==> ((exists|i: int|
                    0 <= i < found@.len() && (#[trigger] found@[i]).id == id)
                        <==> t.events[id].creator_id == auth.user_id)
        },
{
    created_events_are_listed(n, t, auth.user_id, today, first, last);
    let found = last.step->Done_0->Ok_0@;
    let mine = |event: EventRow| event.creator_id == auth.user_id;
    assert(shows_list(t, mine, Order::Ascending, found));
    list_says(t, mine, Order::Ascending, found);
}

/// The list of invitations holds exactly the events in which the user is a
/// participant who has not declined, answered or not: each once and as it is stored,
/// earliest first.
pub proof fn invited_list(
    n: nat,
    t: Tables,
    auth: AuthUser,
    query: EventScopeQuery,
    today: Date,
    first: Step<ListEvents, Vec<EventResponse>>,
    last: Running<ListEvents>,
)
    requires
        t.keyed(),
        call_ensures(get_events_on, (auth, query, today), first),
        query.scope == Some(EventScope::Invited),
        runs(false, n, begun(first, t), last),
        last.step is Done,
    ensures
        last.session.stored == t,
        last.step matches Step::Done(Ok(found)) && {
            &&& forall|i: int, j: int|
                0 <= i < j < found@.len() ==> {
                    &&& (#[trigger] found@[i]).id != (#[trigger] found@[j]).id
                    &&& !day_lt(
                        t.events[found@[j].id].date.ymd(),
                        t.events[found@[i].id].date.ymd(),
                    )
                }
            &&& forall|i: int|
                0 <= i < found@.len() ==> t.events.dom().contains((#[trigger] found@[i]).id)
                    && shows_stored_event(t, found@[i].id, found@[i])
            &&& forall|id: Id| #[trigger]
                t.events.dom().contains(id) ==> ((exists|i: int|
                    0 <= i < found@.len() && (#[trigger] found@[i]).id == id)
                        <==> (exists|k: Id| #[trigger]
                    t.user_events.dom().contains(k) && t.user_events[k].event_id == id
                        && t.user_events[k].user_id == auth.user_id
                        && t.user_events[k].role is Participant && (
                    t.user_events[k].response_status is Pending || t.user_events[k].response_status
                        is Accepted)))
        },
{
    let listing = Listing::Invited;
    wanted_events_are_listed(n, t, auth.user_id, listing, first, last);
    let found = last.step->Done_0->Ok_0@;
    listing_says(t, auth.user_id, listing, found);
}

/// The list of what is to come, which is also what is listed if the client does not
/// say, holds exactly the events that the user has accepted, that are not canceled and
/// whose day is not over: each once and as it is stored, earliest first.
pub proof fn upcoming_list(
    n: nat,
    t: Tables,
    auth: AuthUser,
    query: EventScopeQuery,
    today: Date,
    first: Step<ListEvents, Vec<EventResponse>>,
    last: Running<ListEvents>,
)
    requires
        t.keyed(),
        call_ensures(get_events_on, (auth, query, today), first),
        query.scope is None || query.scope == Some(EventScope::Upcoming),
        runs(false, n, begun(first, t), last),
        last.step is Done,
    ensures
        last.session.stored == t,
        last.step matches Step::Done(Ok(found)) && {
            &&& forall|i: int, j: int|
                0 <= i < j < found@.len() ==> {
                    &&& (#[trigger] found@[i]).id != (#[trigger] found@[j]).id
                    &&& !day_lt(
                        t.events[found@[j].id].date.ymd(),
                        t.events[found@[i].id].date.ymd(),
                    )
                }
            &&& forall|i: int|
                0 <= i < found@.len() ==> t.events.dom().contains((#[trigger] found@[i]).id)
                    && shows_stored_event(t, found@[i].id, found@[i])
            &&& forall|id: Id| #[trigger]
                t.events.dom().contains(id) ==> ((exists|i: int|
                    0 <= i < found@.len() && (#[trigger] found@[i]).id == id) <==> (
                !day_lt(t.events[id].date.ymd(), today.ymd()) && !(t.events[id].status is Canceled)
                    && (exists|k: Id| #[trigger]
                    t.user_events.dom().contains(k) && t.user_events[k].event_id == id
                        && t.user_events[k].user_id == auth.user_id
                        && t.user_events[k].response_status is Accepted)))
        },
{
    let listing = Listing::Upcoming(today);
    wanted_events_are_listed(n, t, auth.user_id, listing, first, last);
    let found = last.step->Done_0->Ok_0@;
    listing_says(t, auth.user_id, listing, found);
}

/// The list of what is over holds exactly the events that the user has accepted and
/// whose day is over: each once and as it is stored, latest first.
pub proof fn past_list(
    n: nat,
    t: Tables,
    auth: AuthUser,
    query: EventScopeQuery,
    today: Date,
    first: Step<ListEvents, Vec<EventResponse>>,
    last: Running<ListEvents>,
)
    requires
        t.keyed(),
        call_ensures(get_events_on, (auth, query, today), first),
        query.scope == Some(EventScope::Past),
        runs(false, n, begun(first, t), last),
        last.step is Done,
    ensures
        last.session.stored == t,
        last.step matches Step::Done(Ok(found)) && {
            &&& forall|i: int, j: int|
                0 <= i < j < found@.len() ==> {
                    &&& (#[trigger] found@[i]).id != (#[trigger] found@[j]).id
                    &&& !day_lt(
                        t.events[found@[i].id].date.ymd(),
                        t.events[found@[j].id].date.ymd(),
                    )
                }
            &&& forall|i: int|
                0 <= i < found@.len() ==> t.events.dom().contains((#[trigger] found@[i]).id)
                    && shows_stored_event(t, found@[i].id, found@[i])
            &&& forall|id: Id| #[trigger]
                t.events.dom().contains(id) ==> ((exists|i: int|
                    0 <= i < found@.len() && (#[trigger] found@[i]).id == id)
                        <==> (day_lt(t.events[id].date.ymd(), today.ymd())
                            && (exists|k: Id| #[trigger]
                    t.user_events.dom().contains(k) && t.user_events[k].event_id == id
                        && t.user_events[k].user_id == auth.user_id
                        && t.user_events[k].response_status is Accepted)))
        },
{
    let listing = Listing::Past(today);
    wanted_events_are_listed(n, t, auth.user_id, listing, first, last);
    let found = last.step->Done_0->Ok_0@;
    listing_says(t, auth.user_id, listing, found);
}

/// The list of pending events holds exactly the pending events that the user has
/// accepted: each once and as it is stored, earliest first.
pub proof fn pending_list(
    n: nat,
    t: Tables,
    auth: AuthUser,
    first: Step<ListEvents, Vec<EventResponse>>,
    last: Running<ListEvents>,
)
    requires
        t.keyed(),
        call_ensures(get_pending_events, (auth,), first),
        runs(false, n, begun(first, t), last),
        last.step is Done,
    ensures
        last.session.stored == t,
        last.step matches Step::Done(Ok(found)) && {
            &&& forall|i: int, j: int|
                0 <= i < j < found@.len() ==> {
                    &&& (#[trigger] found@[i]).id != (#[trigger] found@[j]).id
                    &&& !day_lt(
                        t.events[found@[j].id].date.ymd(),
                        t.events[found@[i].id].date.ymd(),
                    )
                }
            &&& forall|i: int|
                0 <= i < found@.len() ==> t.events.dom().contains((#[trigger] found@[i]).id)
                    && shows_stored_event(t, found@[i].id, found@[i])
            &&& forall|id: Id| #[trigger]
                t.events.dom().contains(id) ==> ((exists|i: int|
                    0 <= i < found@.len() && (#[trigger] found@[i]).id == id) <==> (
                t.events[id].status is Pending && (exists|k: Id| #[trigger]
                    t.user_events.dom().contains(k) && t.user_events[k].event_id == id
                        && t.user_events[k].user_id == auth.user_id
                        && t.user_events[k].response_status is Accepted)))
        },
{
    let listing = Listing::Pending;
    wanted_events_are_listed(n, t, auth.user_id, listing, first, last);
    let found = last.step->Done_0->Ok_0@;
    listing_says(t, auth.user_id, listing, found);
}

/// The list of events that wait for an answer holds exactly the events, neither
/// completed nor canceled and whose day is not over, to which the user has an
/// invitation without an answer: each once and as it is stored, earliest first.
pub proof fn waiting_list(
    n: nat,
    t: Tables,
    auth: AuthUser,
    today: Date,
    first: Step<ListEvents, Vec<EventResponse>>,
    last: Running<ListEvents>,
)
    requires
        t.keyed(),
        call_ensures(get_waiting_events_on, (auth, today), first),
        runs(false, n, begun(first, t), last),
        last.step is Done,
    ensures
        last.session.stored == t,
        last.step matches Step::Done(Ok(found)) && {
            &&& forall|i: int, j: int|
                0 <= i < j < found@.len() ==> {
                    &&& (#[trigger] found@[i]).id != (#[trigger] found@[j]).id
                    &&& !day_lt(
                        t.events[found@[j].id].date.ymd(),
                        t.events[found@[i].id].date.ymd(),
                    )
                }
            &&& forall|i: int|
                0 <= i < found@.len() ==> t.events.dom().contains((#[trigger] found@[i]).id)
                    && shows_stored_event(t, found@[i].id, found@[i])
            &&& forall|id: Id| #[trigger]
                t.events.dom().contains(id) ==> ((exists|i: int|
                    0 <= i < found@.len() && (#[trigger] found@[i]).id == id) <==> (
                !day_lt(t.events[id].date.ymd(), today.ymd()) && (t.events[id].status is Pending
                    || t.events[id].status is Confirmed) && (exists|k: Id| #[trigger]
                    t.user_events.dom().contains(k) && t.user_events[k].event_id == id
                        && t.user_events[k].user_id == auth.user_id
                        && t.user_events[k].role is Participant
                        && t.user_events[k].response_status is Pending)))
        },
{
    let listing = Listing::Waiting(today);
    wanted_events_are_listed(n, t, auth.user_id, listing, first, last);
    let found = last.step->Done_0->Ok_0@;
    listing_says(t, auth.user_id, listing, found);
}

/// The list of events that wait for an answer goes by the day that the clock gives.
pub proof fn waiting_list_by_the_clock(
    n: nat,
    t: Tables,
    auth: AuthUser,
    first: Step<ListEvents, Vec<EventResponse>>,
    last: Running<ListEvents>,
)
    requires
        t.keyed(),
        call_ensures(get_waiting_events, (auth,), first),
        runs(false, n, begun(first, t), last),
        last.step is Done,
    ensures
        last.session.stored == t,
        exists|today: Date|
            #![trigger today.on_the_clock()]
            today.on_the_clock() && {
                &&& last.step matches Step::Done(Ok(found))
                &&& forall|i: int, j: int|
                    0 <= i < j < found@.len() ==> {
                        &&& (#[trigger] found@[i]).id != (#[trigger] found@[j]).id
                        &&& !day_lt(
                            t.events[found@[j].id].date.ymd(),
                            t.events[found@[i].id].date.ymd(),
                        )
                    }
                &&& forall|i: int|
                    0 <= i < found@.len() ==> t.events.dom().contains((#[trigger] found@[i]).id)
                        && shows_stored_event(t, found@[i].id, found@[i])
                &&& forall|id: Id| #[trigger]
                    t.events.dom().contains(id) ==> ((exists|i: int|
                        0 <= i < found@.len() && (#[trigger] found@[i]).id == id) <==> (
                    !day_lt(t.events[id].date.ymd(), today.ymd()) && (t.events[id].status is Pending
                        || t.events[id].status is Confirmed) && (exists|k: Id| #[trigger]
                        t.user_events.dom().contains(k) && t.user_events[k].event_id == id
                            && t.user_events[k].user_id == auth.user_id
                            && t.user_events[k].role is Participant
                            && t.user_events[k].response_status is Pending)))
            },
{
    let today = first->Ask_0->Parts_listing->Waiting_0;
    let listing = Listing::Waiting(today);
    wanted_events_are_listed(n, t, auth.user_id, listing, first, last);
    let found = last.step->Done_0->Ok_0@;
    listing_says(t, auth.user_id, listing, found);
    assert(today.on_the_clock());
}

/// The list of what is to come goes by the day that the clock gives.
pub proof fn upcoming_list_by_the_clock(
    n: nat,
    t: Tables,
    auth: AuthUser,
    query: EventScopeQuery,
    first: Step<ListEvents, Vec<EventResponse>>,
    last: Running<ListEvents>,
)
    requires
        t.keyed(),
        call_ensures(get_events, (auth, query), first),
        query.scope is None || query.scope == Some(EventScope::Upcoming),
        runs(false, n, begun(first, t), last),
        last.step is Done,
    ensures
        last.session.stored == t,
        exists|today: Date|
            #![trigger today.on_the_clock()]
            today.on_the_clock() && {
                &&& last.step matches Step::Done(Ok(found))
                &&& forall|i: int, j: int|
                    0 <= i < j < found@.len() ==> {
                        &&& (#[trigger] found@[i]).id != (#[trigger] found@[j]).id
                        &&& !day_lt(
                            t.events[found@[j].id].date.ymd(),
                            t.events[found@[i].id].date.ymd(),
                        )
                    }
                &&& forall|i: int|
                    0 <= i < found@.len() ==> t.events.dom().contains((#[trigger] found@[i]).id)
                        && shows_stored_event(t, found@[i].id, found@[i])
                &&& forall|id: Id| #[trigger]
                    t.events.dom().contains(id) ==> ((exists|i: int|
                        0 <= i < found@.len() && (#[trigger] found@[i]).id == id) <==> (
                    !day_lt(t.events[id].date.ymd(), today.ymd())
                        && !(t.events[id].status is Canceled)
                        && (exists|k: Id| #[trigger]
                        t.user_events.dom().contains(k) && t.user_events[k].event_id == id
                            && t.user_events[k].user_id == auth.user_id
                            && t.user_events[k].response_status is Accepted)))
            },
{
    let today = first->Ask_0->Parts_listing->Upcoming_0;
    let listing = Listing::Upcoming(today);
    wanted_events_are_listed(n, t, auth.user_id, listing, first, last);
    let found = last.step->Done_0->Ok_0@;
    listing_says(t, auth.user_id, listing, found);
    assert(today.on_the_clock());
}

/// The list of what is over goes by the day that the clock gives.
pub proof fn past_list_by_the_clock(
    n: nat,
    t: Tables,
    auth: AuthUser,
    query: EventScopeQuery,
    first: Step<ListEvents, Vec<EventResponse>>,
    last: Running<ListEvents>,
)
    requires
        t.keyed(),
        call_ensures(get_events, (auth, query), first),
        query.scope == Some(EventScope::Past),
        runs(false, n, begun(first, t), last),
        last.step is Done,
    ensures
        last.session.stored == t,
        exists|today: Date|
            #![trigger today.on_the_clock()]
            today.on_the_clock() && {
                &&& last.step matches Step::Done(Ok(found))
                &&& forall|i: int, j: int|
                    0 <= i < j < found@.len() ==> {
                        &&& (#[trigger] found@[i]).id != (#[trigger] found@[j]).id
                        &&& !day_lt(
                            t.events[found@[i].id].date.ymd(),
                            t.events[found@[j].id].date.ymd(),
                        )
                    }
                &&& forall|i: int|
                    0 <= i < found@.len() ==> t.events.dom().contains((#[trigger] found@[i]).id)
                        && shows_stored_event(t, found@[i].id, found@[i])
                &&& forall|id: Id| #[trigger]
                    t.events.dom().contains(id) ==> ((exists|i: int|
                        0 <= i < found@.len() && (#[trigger] found@[i]).id == id)
                            <==> (day_lt(t.events[id].date.ymd(), today.ymd())
                                && (exists|k: Id| #[trigger]
                        t.user_events.dom().contains(k) && t.user_events[k].event_id == id
                            && t.user_events[k].user_id == auth.user_id
                            && t.user_events[k].response_status is Accepted)))
            },
{
    let today = first->Ask_0->Parts_listing->Past_0;
    let listing = Listing::Past(today);
    wanted_events_are_listed(n, t, auth.user_id, listing, first, last);
    let found = last.step->Done_0->Ok_0@;
    listing_says(t, auth.user_id, listing, found);
    assert(today.on_the_clock());
}

/// The list of invitations, asked for on the current day, holds the same: every
/// event in which the user is a participant who has not declined.
pub proof fn invited_list_today(
    n: nat,
    t: Tables,
    auth: AuthUser,
    query: EventScopeQuery,
    first: Step<ListEvents, Vec<EventResponse>>,
    last: Running<ListEvents>,
)
    requires
        t.keyed(),
        call_ensures(get_events, (auth, query), first),
        query.scope == Some(EventScope::Invited),
        runs(false, n, begun(first, t), last),
        last.step is Done,
    ensures
        last.session.stored == t,
        last.step matches Step::Done(Ok(found)) && {
            &&& forall|i: int, j: int|
                0 <= i < j < found@.len() ==> {
                    &&& (#[trigger] found@[i]).id != (#[trigger] found@[j]).id
                    &&& !day_lt(
                        t.events[found@[j].id].date.ymd(),
                        t.events[found@[i].id].date.ymd(),
                    )
                }
            &&& forall|i: int|
                0 <= i < found@.len() ==> t.events.dom().contains((#[trigger] found@[i]).id)
                    && shows_stored_event(t, found@[i].id, found@[i])
            &&& forall|id: Id| #[trigger]
                t.events.dom().contains(id) ==> ((exists|i: int|
                    0 <= i < found@.len() && (#[trigger] found@[i]).id == id)
                        <==> (exists|k: Id| #[trigger]
                    t.user_events.dom().contains(k) && t.user_events[k].event_id == id
                        && t.user_events[k].user_id == auth.user_id
                        && t.user_events[k].role is Participant && (
                    t.user_events[k].response_status is Pending || t.user_events[k].response_status
                        is Accepted)))
        },
{
    let listing = Listing::Invited;
    wanted_events_are_listed(n, t, auth.user_id, listing, first, last);
    let found = last.step->Done_0->Ok_0@;
    listing_says(t, auth.user_id, listing, found);
}

/// The list of created events, asked for on the current day, holds the same: every
/// event whose creator the user is.
pub proof fn created_list_today(
    n: nat,
    t: Tables,
    auth: AuthUser,
    query: EventScopeQuery,
    first: Step<ListEvents, Vec<EventResponse>>,
    last: Running<ListEvents>,
)
    requires
        t.keyed(),
        call_ensures(get_events, (auth, query), first),
        query.scope == Some(EventScope::Created),
        runs(false, n, begun(first, t), last),
        last.step is Done,
    ensures
        last.session.stored == t,
        last.step matches Step::Done(Ok(found)) && {
            &&& forall|i: int, j: int|
                0 <= i < j < found@.len() ==> {
                    &&& (#[trigger] found@[i]).id != (#[trigger] found@[j]).id
                    &&& !day_lt(
                        t.events[found@[j].id].date.ymd(),
                        t.events[found@[i].id].date.ymd(),
                    )
                }
            &&& forall|i: int|
                0 <= i < found@.len() ==> t.events.dom().contains((#[trigger] found@[i]).id)
                    && shows_stored_event(t, found@[i].id, found@[i])
            &&& forall|id: Id| #[trigger]
                t.events.dom().contains(id) ==> ((exists|i: int|
                    0 <= i < found@.len() && (#[trigger] found@[i]).id == id)
                        <==> t.events[id].creator_id == auth.user_id)
        },
{
    created_events_are_listed(n, t, auth.user_id, arbitrary(), first, last);
    let found = last.step->Done_0->Ok_0@;
    let mine = |event: EventRow| event.creator_id == auth.user_id;
    assert(shows_list(t, mine, Order::Ascending, found));
    list_says(t, mine, Order::Ascending, found);
}

} // verus!
