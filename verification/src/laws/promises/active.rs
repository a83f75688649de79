//! What listing the active events shows and closes.

use crate::controllers::event_controller::active::{
    get_active_events, get_active_events_on, GetActiveEvents,
};
use crate::controllers::models::{AuthUser, EventResponse};
use crate::entities::{EventRow, EventStatus, Id};
use crate::laws::listing::{has_part, ids_shown, shows_each, what_is_listed};
use crate::laws::reading::shows_stored_event;
use crate::laws::sweeping::{
    active, active_events_only_close, agreed, get_active_events_runs, still_in, undeclined,
};
use crate::machine::{Machine, Step};
use crate::model::{begun, lists, runs, Running, Tables};
use crate::store::Order;
use crate::time::{day_lt, Date};
use vstd::prelude::*;

verus! {

/// On a given day: an event whose day is not over stays as it is, and is listed if
/// the user is in it, has not declined, and everybody in it who is a known user has
/// accepted. An event whose day is over and that the user is in is closed: completed
/// if everybody has accepted, else canceled. Nothing else is different.
pub proof fn active_events_on_a_day(
    n: nat,
    t: Tables,
    auth: AuthUser,
    today: Date,
    first: Step<GetActiveEvents, Vec<EventResponse>>,
    last: Running<GetActiveEvents>,
)
    requires
        t.keyed(),
        call_ensures(get_active_events_on, (auth, today), first),
        runs(false, n, begun(first, t), last),
        last.step is Done,
    ensures
        last.step matches Step::Done(Ok(found)) && {
            let u = last.session.stored;
            &&& u == (Tables { events: u.events, ..t })
            &&& u.events.dom() == t.events.dom()
            &&& forall|id: Id| #[trigger]
                t.events.dom().contains(id) ==> {
                    let in_it = exists|k: Id| #[trigger]
                        t.user_events.dom().contains(k) && t.user_events[k].event_id == id
                            && t.user_events[k].user_id == auth.user_id && (
                        t.user_events[k].response_status is Pending
                            || t.user_events[k].response_status is Accepted);
                    let agreed = forall|k: Id| #[trigger]
                        t.user_events.dom().contains(k) && t.user_events[k].event_id == id
                            && t.users.dom().contains(t.user_events[k].user_id)
                            ==> t.user_events[k].response_status is Accepted;
                    let over = day_lt(t.events[id].date.ymd(), today.ymd());
                    &&& over && in_it && agreed ==> u.events[id] == (EventRow {
                        status: EventStatus::Completed,
                        ..t.events[id]
                    })
                    &&& over && in_it && !agreed ==> u.events[id] == (EventRow {
                        status: EventStatus::Canceled,
                        ..t.events[id]
                    })
                    &&& !over || !in_it ==> u.events[id] == t.events[id]
                    &&& (exists|i: int| 0 <= i < found@.len() && (#[trigger] found@[i]).id == id)
                        <==> !over && in_it && agreed
                }
            &&& forall|i: int|
                0 <= i < found@.len() ==> t.events.dom().contains((#[trigger] found@[i]).id)
                    && shows_stored_event(t, found@[i].id, found@[i])
            &&& forall|i: int, j: int|
                0 <= i < j < found@.len() ==> (#[trigger] found@[i]).id != (
                #[trigger] found@[j]).id
        },
{
    active_events_are(n, t, auth.user_id, today, first, last);
}

/// The events are judged by the day that the clock gives: one whose date is not
/// before it keeps its status, and is listed if the user is in it and everybody has
/// accepted.
pub proof fn active_events_by_the_clock(
    n: nat,
    t: Tables,
    auth: AuthUser,
    first: Step<GetActiveEvents, Vec<EventResponse>>,
    last: Running<GetActiveEvents>,
)
    requires
        t.keyed(),
        call_ensures(get_active_events, (auth,), first),
        runs(false, n, begun(first, t), last),
        last.step is Done,
    ensures
        exists|today: Date|
            #![trigger today.on_the_clock()]
            today.on_the_clock() && {
                let u = last.session.stored;
                &&& last.step matches Step::Done(Ok(found))
                &&& u == (Tables { events: u.events, ..t })
                &&& u.events.dom() == t.events.dom()
                &&& forall|id: Id| #[trigger]
                    t.events.dom().contains(id) ==> {
                        let in_it = exists|k: Id| #[trigger]
                            t.user_events.dom().contains(k) && t.user_events[k].event_id == id
                                && t.user_events[k].user_id == auth.user_id && (
                            t.user_events[k].response_status is Pending
                                || t.user_events[k].response_status is Accepted);
                        let agreed = forall|k: Id| #[trigger]
                            t.user_events.dom().contains(k) && t.user_events[k].event_id == id
                                && t.users.dom().contains(t.user_events[k].user_id)
                                ==> t.user_events[k].response_status is Accepted;
                        let over = day_lt(t.events[id].date.ymd(), today.ymd());
                        &&& over && in_it && agreed ==> u.events[id] == (EventRow {
                            status: EventStatus::Completed,
                            ..t.events[id]
                        })
                        &&& over && in_it && !agreed ==> u.events[id] == (EventRow {
                            status: EventStatus::Canceled,
                            ..t.events[id]
                        })
                        &&& !over || !in_it ==> u.events[id] == t.events[id]
                        &&& (exists|i: int|
                            0 <= i < found@.len() && (#[trigger] found@[i]).id == id) <==> !over
                            && in_it && agreed
                    }
                &&& forall|i: int|
                    0 <= i < found@.len() ==> t.events.dom().contains((#[trigger] found@[i]).id)
                        && shows_stored_event(t, found@[i].id, found@[i])
            },
{
    let today = first->Ask_0->Parts_today;
    active_events_are(n, t, auth.user_id, today, first, last);
    assert(today.on_the_clock());
}

/// Whatever fails on the way, an event whose date is not before the day that the clock
/// gives stays as it is, and nothing but the status of an event is touched.
pub proof fn events_ahead_are_never_closed(
    n: nat,
    t: Tables,
    auth: AuthUser,
    first: Step<GetActiveEvents, Vec<EventResponse>>,
    last: Running<GetActiveEvents>,
)
    requires
        t.keyed(),
        call_ensures(get_active_events, (auth,), first),
        runs(true, n, begun(first, t), last),
    ensures
        exists|today: Date|
            #![trigger today.on_the_clock()]
            today.on_the_clock() && {
                let u = last.session.stored;
                &&& u == (Tables { events: u.events, ..t })
                &&& u.events.dom() == t.events.dom()
                &&& forall|id: Id| #[trigger]
                    t.events.dom().contains(id) ==> {
                        &&& !day_lt(t.events[id].date.ymd(), today.ymd()) ==> u.events[id]
                            == t.events[id]
                        &&& u.events[id] == (EventRow {
                            status: u.events[id].status,
                            ..t.events[id]
                        })
                        &&& u.events[id].status != t.events[id].status ==> u.events[id].status
                            is Completed || u.events[id].status is Canceled
                    }
            },
{
    let today = first->Ask_0->Parts_today;
    active_events_only_close(n, t, auth.user_id, today, first, last);
    assert(today.on_the_clock());
}

proof fn active_events_are(
    n: nat,
    t: Tables,
    me: Id,
    today: Date,
    first: Step<GetActiveEvents, Vec<EventResponse>>,
    last: Running<GetActiveEvents>,
)
    requires
        t.keyed(),
        first.waits_at(GetActiveEvents::Parts { me, today }),
        first matches Step::Ask(m, request) && m.asking(request),
        runs(false, n, begun(first, t), last),
        last.step is Done,
    ensures
        last.step matches Step::Done(Ok(found)) && {
            let u = last.session.stored;
            &&& u == (Tables { events: u.events, ..t })
            &&& u.events.dom() == t.events.dom()
            &&& forall|id: Id| #[trigger]
                t.events.dom().contains(id) ==> {
                    let in_it = exists|k: Id| #[trigger]
                        t.user_events.dom().contains(k) && t.user_events[k].event_id == id
                            && t.user_events[k].user_id == me && (t.user_events[k].response_status
                            is Pending || t.user_events[k].response_status is Accepted);
                    let agreed = forall|k: Id| #[trigger]
                        t.user_events.dom().contains(k) && t.user_events[k].event_id == id
                            && t.users.dom().contains(t.user_events[k].user_id)
                            ==> t.user_events[k].response_status is Accepted;
                    let over = day_lt(t.events[id].date.ymd(), today.ymd());
                    &&& over && in_it && agreed ==> u.events[id] == (EventRow {
                        status: EventStatus::Completed,
                        ..t.events[id]
                    })
                    &&& over && in_it && !agreed ==> u.events[id] == (EventRow {
                        status: EventStatus::Canceled,
                        ..t.events[id]
                    })
                    &&& !over || !in_it ==> u.events[id] == t.events[id]
                    &&& (exists|i: int| 0 <= i < found@.len() && (#[trigger] found@[i]).id == id)
                        <==> !over && in_it && agreed
                }
            &&& forall|i: int|
                0 <= i < found@.len() ==> t.events.dom().contains((#[trigger] found@[i]).id)
                    && shows_stored_event(t, found@[i].id, found@[i])
            &&& forall|i: int, j: int|
                0 <= i < j < found@.len() ==> (#[trigger] found@[i]).id != (
                #[trigger] found@[j]).id
        },
{
    get_active_events_runs(n, t, me, today, first, last);
    let found = last.step->Done_0->Ok_0@;
    let p = active(t, me, today);
    what_is_listed(t, p, Order::Unspecified, found);
    let ids = ids_shown(found);
    let rows = choose|rows: Seq<EventRow>|
        lists(t.events, p, rows) && #[trigger] shows_each(t, rows, found);
    assert forall|i: int| 0 <= i < found.len() implies t.events.dom().contains(
        (#[trigger] found[i]).id,
    ) && shows_stored_event(t, found[i].id, found[i]) by {
        assert(shows_stored_event(t, rows[i].id, found[i]));
    }
    assert forall|i: int, j: int| 0 <= i < j < found.len() implies (#[trigger] found[i]).id != (
    #[trigger] found[j]).id by {
        assert(ids[i] != ids[j]);
    }
    assert forall|id: Id| #[trigger] t.events.dom().contains(id) implies {
        &&& (exists|i: int| 0 <= i < found.len() && (#[trigger] found[i]).id == id) <==> p(
            t.events[id],
        )
        &&& still_in(t, me)(t.events[id]) <==> has_part(t, undeclined(me), id)
    } by {
        if exists|i: int| 0 <= i < found.len() && (#[trigger] found[i]).id == id {
            let i = choose|i: int| 0 <= i < found.len() && (#[trigger] found[i]).id == id;
            assert(ids[i] == id);
            assert(ids.contains(id));
        }
        if p(t.events[id]) {
            assert(ids.contains(id));
            let i = choose|i: int| 0 <= i < ids.len() && ids[i] == id;
            assert(found[i].id == id);
        }
    }
    assert forall|id: Id| #[trigger] t.events.dom().contains(id) implies (has_part(
        t,
        undeclined(me),
        id,
    ) <==> exists|k: Id| #[trigger]
        t.user_events.dom().contains(k) && t.user_events[k].event_id == id
            && t.user_events[k].user_id == me && (t.user_events[k].response_status is Pending
            || t.user_events[k].response_status is Accepted)) by {
        if has_part(t, undeclined(me), id) {
            let k = choose|k: Id| #[trigger]
                t.user_events.dom().contains(k) && undeclined(me)(t.user_events[k])
                    && t.user_events[k].event_id == id;
            assert(t.user_events[k].user_id == me);
        }
    }
}

} // verus!
