//! What completing an event does.

use crate::controllers::event_controller::finish::FinishEvent;
use crate::controllers::event_controller::load::LoadEvent;
use crate::controllers::models::EventResponse;
use crate::entities::{EventRow, EventStatus, Id};
use crate::laws::consistency::{
    accepts, confirmations_are_reserved, consistent, days_are_backed, holds_day, no_day_twice,
    owners_are_reserved, reserves,
};
use crate::laws::facts::own_event_found;
use crate::laws::reading::{
    event_is_read, reading_changes_nothing, reading_event, reading_only_reads, shows_stored_event,
};
use crate::machine::{Machine, Step};
use crate::model::{begun, exchange, runs, runs_keep, Running, Session, Tables};
use crate::refusal::Refusal;
use crate::store::Reply;
use crate::text::blank;
use crate::time::Date;
use vstd::prelude::*;

verus! {

/// Why `me` cannot complete an event today, if that is so.
pub open spec fn refusal_to_finish(
    t: Tables,
    me: Id,
    id: Id,
    today: Date,
    image: String,
) -> Option<Refusal> {
    if !(t.events.dom().contains(id) && t.events[id].creator_id == me) {
        Some(Refusal::NotEventCreator)
    } else if !t.events[id].status.open() {
        Some(Refusal::EventClosed)
    } else if today.lt(t.events[id].date) {
        Some(Refusal::EventInFuture)
    } else if blank(image@) {
        Some(Refusal::MemoryImageMissing)
    } else {
        None
    }
}

/// The tables once an event is completed, with an image to remember it by.
/// Nothing else is different.
pub open spec fn with_memory(t: Tables, id: Id, image: String) -> Tables {
    Tables {
        events: t.events.insert(
            id,
            EventRow {
                status: EventStatus::Completed,
                memory_image_base64: Some(image),
                ..t.events[id]
            },
        ),
        ..t
    }
}

/// What holds while `me` completes the event `id` of `t`.
pub open spec fn finishing(
    faults: bool,
    t: Tables,
    me: Id,
    id: Id,
    today: Date,
    image: String,
    r: Running<FinishEvent>,
) -> bool {
    let u = with_memory(t, id, image);
    match r.step {
        Step::Ask(m, request) => {
            &&& m.asking(request)
            &&& match m {
                FinishEvent::Event { me: a, id: b, today: d, image: i } => a == me && b == id && d
                    == today && i == image && r.session == Session::to(t),
                FinishEvent::Update { id: b, stored } => {
                    &&& b == id && stored@ == image
                    &&& refusal_to_finish(t, me, id, today, image) is None
                    &&& r.session == Session::to(t)
                },
                FinishEvent::Loading(load) => {
                    &&& refusal_to_finish(t, me, id, today, image) is None
                    &&& r.session == Session::to(u)
                    &&& !faults ==> reading_event(u, id, load, request)
                },
            }
        },
        Step::Done(Ok(shown)) => {
            &&& r.session.stored == u
            &&& refusal_to_finish(t, me, id, today, image) is None
            &&& !faults ==> shows_stored_event(u, id, shown)
        },
        Step::Done(Err(why)) => if faults {
            ||| r.session.stored == t
            ||| r.session.stored == u && refusal_to_finish(t, me, id, today, image) is None
        } else {
            r.session.stored == t && refusal_to_finish(t, me, id, today, image) == Some(why)
        },
    }
}

proof fn finishing_is_kept(
    faults: bool,
    t: Tables,
    me: Id,
    id: Id,
    today: Date,
    image: String,
    a: Running<FinishEvent>,
    reply: Reply,
    b: Running<FinishEvent>,
)
    requires
        t.keyed(),
        finishing(faults, t, me, id, today, image, a),
        exchange(faults, a, reply, b),
    ensures
        finishing(faults, t, me, id, today, image, b),
{
    let m = a.step->Ask_0;
    let request = a.step->Ask_1;
    match m {
        FinishEvent::Event { .. } => {
            if reply is Event {
                own_event_found(t, request->OneEvent_0, reply->Event_0, id, me);
            }
        },
        FinishEvent::Update { .. } => {},
        FinishEvent::Loading(load) => {
            reading_only_reads(load, request);
            reading_changes_nothing(a.session, request, reply, b.session);
            if !faults {
                let u = with_memory(t, id, image);
                let inner: Step<LoadEvent, EventResponse> = match b.step {
                    Step::Ask(FinishEvent::Loading(l), q) => Step::Ask(l, q),
                    Step::Done(x) => Step::Done(x),
                    _ => arbitrary(),
                };
                assert(u.keyed());
                event_is_read(u, id, load, request, reply, inner);
                assert(u.events.dom().contains(id));
            }
        },
    }
}

/// Completing an event keeps the tables consistent.
pub proof fn completion_is_consistent(t: Tables, id: Id, image: String)
    requires
        consistent(t),
        t.events.dom().contains(id),
    ensures
        consistent(with_memory(t, id, image)),
{
    let u = with_memory(t, id, image);
    assert(u.keyed());
    assert(days_are_backed(u)) by {
        assert forall|d: Id| #[trigger]
            u.busydays.dom().contains(d) && u.busydays[d].event_id is Some implies {
            let e = u.busydays[d].event_id->0;
            &&& u.events.dom().contains(e)
            &&& u.busydays[d].date == u.events[e].date
            &&& exists|p: Id| #[trigger] accepts(u, p, u.busydays[d].user_id, e)
        } by {
            let e = t.busydays[d].event_id->0;
            let p = choose|p: Id| #[trigger] accepts(t, p, t.busydays[d].user_id, e);
            assert(accepts(u, p, u.busydays[d].user_id, e));
        }
    }
    assert(confirmations_are_reserved(u)) by {
        assert forall|e: Id| #[trigger]
            u.events.dom().contains(e) && u.events[e].status is Confirmed implies exists|
            p: Id,
            d: Id,
        | #[trigger] holds_day(u, p, d, e) by {
            assert(t.events.dom().contains(e));
            let (p, d) = choose|p: Id, d: Id| #[trigger] holds_day(t, p, d, e);
            assert(holds_day(u, p, d, e));
        }
    }
    assert(owners_are_reserved(u)) by {
        assert forall|p: Id| #[trigger]
            u.user_events.dom().contains(p) && u.user_events[p].role is Owner
                && u.events[u.user_events[p].event_id].status.open() implies exists|d: Id|
            #[trigger] reserves(u, d, u.user_events[p].user_id, u.user_events[p].event_id) by {
            let d = choose|d: Id| #[trigger]
                reserves(t, d, t.user_events[p].user_id, t.user_events[p].event_id);
            assert(reserves(u, d, u.user_events[p].user_id, u.user_events[p].event_id));
        }
    }
}

/// Completing an event, to the end: a reply shows the event as it is then
/// stored, completed and with its image; a refusal says why `me` cannot complete
/// it today, and leaves the tables as they were.
pub proof fn finish_event_runs(
    n: nat,
    t: Tables,
    me: Id,
    id: Id,
    today: Date,
    image: String,
    first: Step<FinishEvent, EventResponse>,
    last: Running<FinishEvent>,
)
    requires
        t.keyed(),
        first.waits_at(FinishEvent::Event { me, id, today, image }),
        first matches Step::Ask(m, request) && m.asking(request),
        runs(false, n, begun(first, t), last),
    ensures
        last.step matches Step::Done(Ok(shown)) ==> {
            &&& refusal_to_finish(t, me, id, today, image) is None
            &&& last.session.stored == with_memory(t, id, image)
            &&& shows_stored_event(last.session.stored, id, shown)
        },
        last.step matches Step::Done(Err(why)) ==> {
            &&& refusal_to_finish(t, me, id, today, image) == Some(why)
            &&& last.session.stored == t
        },
{
    let kept = |r: Running<FinishEvent>| finishing(false, t, me, id, today, image, r);
    assert forall|c: Running<FinishEvent>, reply: Reply, d: Running<FinishEvent>|
        kept(c) && #[trigger] exchange(false, c, reply, d) implies kept(d) by {
        finishing_is_kept(false, t, me, id, today, image, c, reply, d);
    }
    runs_keep(false, n, begun(first, t), last, kept);
}

/// Whatever fails on the way, an event is completed altogether or not at all.
/// Tables in which nobody is taken twice on one day stay so, and consistent tables
/// stay consistent.
pub proof fn finish_event_is_atomic(
    n: nat,
    t: Tables,
    me: Id,
    id: Id,
    today: Date,
    image: String,
    first: Step<FinishEvent, EventResponse>,
    last: Running<FinishEvent>,
)
    requires
        t.keyed(),
        first.waits_at(FinishEvent::Event { me, id, today, image }),
        first matches Step::Ask(m, request) && m.asking(request),
        runs(true, n, begun(first, t), last),
        last.step is Done,
    ensures
        last.session.stored == t || last.session.stored == with_memory(t, id, image),
        last.step->Done_0 is Ok ==> last.session.stored == with_memory(t, id, image),
        no_day_twice(t.busydays) ==> no_day_twice(last.session.stored.busydays),
        consistent(t) ==> consistent(last.session.stored),
{
    let kept = |r: Running<FinishEvent>| finishing(true, t, me, id, today, image, r);
    assert forall|c: Running<FinishEvent>, reply: Reply, d: Running<FinishEvent>|
        kept(c) && #[trigger] exchange(true, c, reply, d) implies kept(d) by {
        finishing_is_kept(true, t, me, id, today, image, c, reply, d);
    }
    runs_keep(true, n, begun(first, t), last, kept);
    if last.session.stored != t && consistent(t) {
        completion_is_consistent(t, id, image);
    }
}

} // verus!
