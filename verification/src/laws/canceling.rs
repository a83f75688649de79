//! What canceling an event does.

use crate::controllers::event_controller::cancel::CancelEvent;
use crate::entities::{Id, UserEventRow};
use crate::laws::consistency::{
    accepts, confirmations_are_reserved, consistent, days_are_backed, holds_day, no_day_twice,
    owners_are_reserved, parts_belong, reserves,
};
use crate::laws::declining::taken_for;
use crate::laws::facts::{own_event_found, without_alike, without_is_keyed};
use crate::machine::{Machine, Step};
use crate::model::{
    begun, exchange, runs, runs_keep, through, without, Running, Session, Tables,
};
use crate::refusal::{Refusal, StatusCode};
use crate::store::Reply;
use vstd::prelude::*;

verus! {

/// The parts in an event.
pub open spec fn parts_in(id: Id) -> spec_fn(UserEventRow) -> bool {
    |row: UserEventRow| row.event_id == id
}

/// Why `me` cannot cancel an event, if that is so.
pub open spec fn refusal_to_cancel(t: Tables, me: Id, id: Id) -> Option<Refusal> {
    if !(t.events.dom().contains(id) && t.events[id].creator_id == me) {
        Some(Refusal::EventMissing)
    } else if t.events[id].status is Completed {
        Some(Refusal::EventCompleted)
    } else {
        None
    }
}

/// The tables without an event, everybody's part in it, and the days that are
/// taken for it.
pub open spec fn without_event(t: Tables, id: Id) -> Tables {
    Tables {
        events: t.events.remove(id),
        user_events: without(t.user_events, parts_in(id)),
        busydays: without(t.busydays, taken_for(id)),
        ..t
    }
}

/// What holds while `me` cancels the event `id` of `t`.
pub open spec fn canceling(
    faults: bool,
    t: Tables,
    me: Id,
    id: Id,
    r: Running<CancelEvent>,
) -> bool {
    let days = without(t.busydays, taken_for(id));
    let parts = without(t.user_events, parts_in(id));
    match r.step {
        Step::Ask(m, request) => {
            &&& m.asking(request)
            &&& m is Begin || r.session.stored == t
            &&& match m {
                CancelEvent::Begin { me: a, id: b } => a == me && b == id && r.session
                    == Session::to(t),
                CancelEvent::Event { me: a, id: b } => a == me && b == id && r.session.open == Some(
                    t,
                ),
                CancelEvent::Busydays { id: b } => b == id && refusal_to_cancel(t, me, id) is None
                    && r.session.open == Some(t),
                CancelEvent::Parts { id: b } => b == id && refusal_to_cancel(t, me, id) is None
                    && r.session.open == Some(Tables { busydays: days, ..t }),
                CancelEvent::Delete { id: b } => b == id && refusal_to_cancel(t, me, id) is None
                    && r.session.open == Some(Tables { busydays: days, user_events: parts, ..t }),
                CancelEvent::Commit { id: b } => b == id && refusal_to_cancel(t, me, id) is None
                    && r.session.open == Some(without_event(t, id)),
            }
        },
        Step::Done(Ok(code)) => {
            &&& code is NoContent
            &&& r.session.stored == without_event(t, id)
            &&& refusal_to_cancel(t, me, id) is None
        },
        Step::Done(Err(why)) => {
            &&& r.session.stored == t
            &&& !faults ==> refusal_to_cancel(t, me, id) == Some(why)
        },
    }
}

proof fn canceling_is_kept(
    faults: bool,
    t: Tables,
    me: Id,
    id: Id,
    a: Running<CancelEvent>,
    reply: Reply,
    b: Running<CancelEvent>,
)
    requires
        t.keyed(),
        canceling(faults, t, me, id, a),
        exchange(faults, a, reply, b),
    ensures
        canceling(faults, t, me, id, b),
{
    let m = a.step->Ask_0;
    let request = a.step->Ask_1;
    match m {
        CancelEvent::Event { .. } => {
            if reply is Event {
                own_event_found(t, request->OneEvent_0, reply->Event_0, id, me);
            }
        },
        CancelEvent::Busydays { .. } => {
            if reply is Count {
                without_alike(t.busydays, through(request->DeleteBusydays_0), taken_for(id));
            }
        },
        CancelEvent::Parts { .. } => {
            if reply is Count {
                without_alike(t.user_events, through(request->DeleteUserEvents_0), parts_in(id));
            }
        },
        _ => {},
    }
}

/// Canceling keeps the tables consistent.
pub proof fn cancellation_is_consistent(t: Tables, id: Id)
    requires
        consistent(t),
    ensures
        consistent(without_event(t, id)),
{
    let u = without_event(t, id);
    without_is_keyed(t.busydays, taken_for(id));
    without_is_keyed(t.user_events, parts_in(id));
    assert(u.keyed());
    assert(parts_belong(u)) by {
        assert forall|k: Id| #[trigger] u.user_events.dom().contains(k) implies {
            &&& u.events.dom().contains(u.user_events[k].event_id)
            &&& u.user_events[k].role is Owner ==> {
                &&& u.user_events[k].user_id == u.events[u.user_events[k].event_id].creator_id
                &&& u.user_events[k].response_status is Accepted
            }
        } by {
            assert(t.user_events.dom().contains(k) && !parts_in(id)(t.user_events[k]));
        }
    }
    assert(days_are_backed(u)) by {
        assert forall|d: Id| #[trigger]
            u.busydays.dom().contains(d) && u.busydays[d].event_id is Some implies {
            let e = u.busydays[d].event_id->0;
            &&& u.events.dom().contains(e)
            &&& u.busydays[d].date == u.events[e].date
            &&& exists|p: Id| #[trigger] accepts(u, p, u.busydays[d].user_id, e)
        } by {
            assert(t.busydays.dom().contains(d) && !taken_for(id)(t.busydays[d]));
            let e = t.busydays[d].event_id->0;
            let p = choose|p: Id| #[trigger] accepts(t, p, t.busydays[d].user_id, e);
            assert(!parts_in(id)(t.user_events[p]));
            assert(accepts(u, p, u.busydays[d].user_id, e));
        }
    }
    assert(confirmations_are_reserved(u)) by {
        assert forall|e: Id| #[trigger]
            u.events.dom().contains(e) && u.events[e].status is Confirmed implies exists|
            p: Id,
            d: Id,
        | #[trigger] holds_day(u, p, d, e) by {
            assert(t.events.dom().contains(e));
            let (p, d) = choose|p: Id, d: Id| #[trigger] holds_day(t, p, d, e);
            assert(!parts_in(id)(t.user_events[p]) && !taken_for(id)(t.busydays[d]));
            assert(holds_day(u, p, d, e));
        }
    }
    assert(owners_are_reserved(u)) by {
        assert forall|p: Id| #[trigger]
            u.user_events.dom().contains(p) && u.user_events[p].role is Owner
                && u.events[u.user_events[p].event_id].status.open() implies exists|d: Id|
            #[trigger] reserves(u, d, u.user_events[p].user_id, u.user_events[p].event_id) by {
            assert(t.user_events.dom().contains(p) && !parts_in(id)(t.user_events[p]));
            let d = choose|d: Id| #[trigger]
                reserves(t, d, t.user_events[p].user_id, t.user_events[p].event_id);
            assert(!taken_for(id)(t.busydays[d]));
            assert(reserves(u, d, u.user_events[p].user_id, u.user_events[p].event_id));
        }
    }
    assert forall|k: Id| #[trigger] u.user_events.dom().contains(k) implies
        t.user_events.dom().contains(k) && t.user_events[k].event_id != id by {
        assert(!parts_in(id)(t.user_events[k]));
    }
}

/// Canceling an event, to the end: it succeeds unless something stands in the
/// way, and the event is then gone, with everybody's part in it and the days
/// that were taken for it; a refusal says what does, and leaves the tables as
/// they were.
pub proof fn cancel_event_runs(
    n: nat,
    t: Tables,
    me: Id,
    id: Id,
    first: Step<CancelEvent, StatusCode>,
    last: Running<CancelEvent>,
)
    requires
        t.keyed(),
        first.waits_at(CancelEvent::Begin { me, id }),
        first matches Step::Ask(m, request) && m.asking(request),
        runs(false, n, begun(first, t), last),
    ensures
        last.step matches Step::Done(Ok(code)) ==> {
            &&& code is NoContent
            &&& refusal_to_cancel(t, me, id) is None
            &&& last.session.stored == without_event(t, id)
        },
        last.step matches Step::Done(Err(why)) ==> {
            &&& refusal_to_cancel(t, me, id) == Some(why)
            &&& last.session.stored == t
        },
{
    let kept = |r: Running<CancelEvent>| canceling(false, t, me, id, r);
    assert forall|c: Running<CancelEvent>, reply: Reply, d: Running<CancelEvent>|
        kept(c) && #[trigger] exchange(false, c, reply, d) implies kept(d) by {
        canceling_is_kept(false, t, me, id, c, reply, d);
    }
    runs_keep(false, n, begun(first, t), last, kept);
}

/// Whatever fails on the way, an event is canceled altogether if that is what is
/// answered and not at all otherwise. Tables in which nobody is taken twice on one
/// day stay so, and consistent tables stay consistent.
pub proof fn cancel_event_is_atomic(
    n: nat,
    t: Tables,
    me: Id,
    id: Id,
    first: Step<CancelEvent, StatusCode>,
    last: Running<CancelEvent>,
)
    requires
        t.keyed(),
        first.waits_at(CancelEvent::Begin { me, id }),
        first matches Step::Ask(m, request) && m.asking(request),
        runs(true, n, begun(first, t), last),
        last.step is Done,
    ensures
        last.step->Done_0 is Ok ==> last.session.stored == without_event(t, id),
        last.step->Done_0 is Err ==> last.session.stored == t,
        no_day_twice(t.busydays) ==> no_day_twice(last.session.stored.busydays),
        consistent(t) ==> consistent(last.session.stored),
{
    let kept = |r: Running<CancelEvent>| canceling(true, t, me, id, r);
    assert forall|c: Running<CancelEvent>, reply: Reply, d: Running<CancelEvent>|
        kept(c) && #[trigger] exchange(true, c, reply, d) implies kept(d) by {
        canceling_is_kept(true, t, me, id, c, reply, d);
    }
    runs_keep(true, n, begun(first, t), last, kept);
    if consistent(t) {
        cancellation_is_consistent(t, id);
    }
}

} // verus!
