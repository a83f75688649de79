//! What declining an invitation does.

use crate::controllers::event_controller::respond::{kept_invitation, DeclineEvent};
use crate::controllers::event_controller::rules::still_invited;
use crate::entities::{BusydayRow, EventRow, EventStatus, Id, UserEventResponse, UserEventRow};
use crate::laws::consistency::{
    accepts, confirmations_are_reserved, confirmed_by_all, consistent, days_are_backed, holds_day,
    no_day_twice, owners_are_reserved, reserves,
};
use crate::laws::facts::{event_found, without_alike, without_is_keyed};
use crate::machine::{Machine, Step};
use crate::model::{
    begun, exchange, matching, runs, runs_keep, through, without, Running, Session, Tables,
};
use crate::refusal::{Refusal, StatusCode};
use crate::store::Reply;
use vstd::prelude::*;

verus! {

/// `me` has an invitation to an open event that can be declined: one that is
/// unanswered or accepted.
pub open spec fn declinable(t: Tables, me: Id, id: Id, part: Id) -> bool {
    &&& t.events.dom().contains(id)
    &&& t.events[id].status.open()
    &&& t.user_events.dom().contains(part)
    &&& kept_invitation(id, me)(t.user_events[part])
}

/// The parts once `part` is declined.
pub open spec fn with_refusal(parts: Map<Id, UserEventRow>, part: Id) -> Map<Id, UserEventRow> {
    parts.insert(
        part,
        UserEventRow { response_status: UserEventResponse::Declined, ..parts[part] },
    )
}

/// The days that are taken from one user for an event.
pub open spec fn taken_from(me: Id, id: Id) -> spec_fn(BusydayRow) -> bool {
    |row: BusydayRow| row.event_id == Some(id) && row.user_id == me
}

/// The days that are taken for an event.
pub open spec fn taken_for(id: Id) -> spec_fn(BusydayRow) -> bool {
    |row: BusydayRow| row.event_id == Some(id)
}

/// No participant of the event is left who has not declined.
pub open spec fn nobody_left(parts: Map<Id, UserEventRow>, id: Id) -> bool {
    matching(parts, still_invited(id)).len() == 0
}

/// The status of an event once an invitation to it has been declined.
pub open spec fn status_after(status: EventStatus, deserted: bool) -> EventStatus {
    if deserted {
        EventStatus::Canceled
    } else if status is Confirmed {
        EventStatus::Pending
    } else {
        status
    }
}

/// The tables once `me` has declined: the invitation is declined, and the day is
/// free again. If `me` was the last participant, the event is canceled and
/// everybody's day is free again; else a confirmed event is pending again.
/// Nothing else is different.
pub open spec fn declined_at(t: Tables, u: Tables, me: Id, id: Id, part: Id) -> bool {
    let parts = with_refusal(t.user_events, part);
    &&& declinable(t, me, id, part)
    &&& u == (Tables {
        user_events: parts,
        busydays: without(
            t.busydays,
            if nobody_left(parts, id) {
                taken_for(id)
            } else {
                taken_from(me, id)
            },
        ),
        events: t.events.insert(
            id,
            EventRow {
                status: status_after(t.events[id].status, nobody_left(parts, id)),
                ..t.events[id]
            },
        ),
        ..t
    })
}

pub open spec fn declined(t: Tables, u: Tables, me: Id, id: Id) -> bool {
    exists|part: Id| #[trigger] declined_at(t, u, me, id, part)
}

/// Why `me` cannot decline the invitation to an event, if that is so.
pub open spec fn refusal_to_decline(t: Tables, me: Id, id: Id) -> Option<Refusal> {
    if !t.events.dom().contains(id) {
        Some(Refusal::EventNotFound)
    } else if !t.events[id].status.open() {
        Some(Refusal::EventClosed)
    } else if forall|k: Id| #[trigger]
        t.user_events.dom().contains(k) ==> !kept_invitation(id, me)(t.user_events[k]) {
        Some(Refusal::NotParticipant)
    } else {
        None
    }
}

/// What holds while `me` declines the invitation to the event `id` of `t`.
pub open spec fn declining(
    faults: bool,
    t: Tables,
    me: Id,
    id: Id,
    r: Running<DeclineEvent>,
) -> bool {
    let tx = Session { stored: t, open: Some(t) };
    match r.step {
        Step::Ask(m, request) => {
            &&& m.asking(request)
            &&& match m {
                DeclineEvent::Begin { me: a, id: b } => a == me && b == id && r.session
                    == Session::to(t),
                DeclineEvent::Event { me: a, id: b } => a == me && b == id && r.session == tx,
                DeclineEvent::Invitation { me: a, id: b, status } => {
                    &&& a == me && b == id
                    &&& r.session == tx
                    &&& t.events.dom().contains(id) && t.events[id].status.open()
                    &&& status == t.events[id].status
                },
                DeclineEvent::Answer { me: a, id: b, status, part } => {
                    &&& a == me && b == id
                    &&& r.session == tx
                    &&& status == t.events[id].status
                    &&& declinable(t, me, id, part)
                },
                DeclineEvent::Free { me: a, id: b, status } => {
                    &&& a == me && b == id
                    &&& status == t.events[id].status
                    &&& exists|part: Id| #[trigger]
                        declinable(t, me, id, part) && r.session == (Session {
                            stored: t,
                            open: Some(
                                Tables { user_events: with_refusal(t.user_events, part), ..t },
                            ),
                        })
                },
                DeclineEvent::Count { id: b, status } => {
                    &&& b == id
                    &&& status == t.events[id].status
                    &&& exists|part: Id| #[trigger]
                        declinable(t, me, id, part) && r.session == freed(
                            t,
                            part,
                            id,
                            taken_from(me, id),
                        )
                },
                DeclineEvent::FreeAll { id: b } => {
                    &&& b == id
                    &&& exists|part: Id| #[trigger]
                        declinable(t, me, id, part) && r.session == freed(
                            t,
                            part,
                            id,
                            taken_from(me, id),
                        ) && nobody_left(with_refusal(t.user_events, part), id)
                },
                DeclineEvent::Status { id: b, to } => {
                    &&& b == id
                    &&& exists|part: Id| #[trigger]
                        declinable(t, me, id, part) && {
                            let alone = nobody_left(with_refusal(t.user_events, part), id);
                            let after = status_after(t.events[id].status, alone);
                            &&& r.session == freed(
                                t,
                                part,
                                id,
                                if alone {
                                    taken_for(id)
                                } else {
                                    taken_from(me, id)
                                },
                            )
                            &&& match to {
                                Some(status) => status == after,
                                None => after == t.events[id].status,
                            }
                        }
                },
                DeclineEvent::Commit { id: b } => b == id && r.session.stored == t && r.session.open
                    is Some && declined(t, r.session.seen(), me, id),
            }
        },
        Step::Done(Ok(code)) => {
            &&& code is NoContent
            &&& declined(t, r.session.stored, me, id)
            &&& refusal_to_decline(t, me, id) is None
        },
        Step::Done(Err(why)) => {
            &&& r.session.stored == t
            &&& !faults ==> refusal_to_decline(t, me, id) == Some(why)
        },
    }
}

/// The invitation is declined and days are free again, in a transaction.
pub open spec fn freed(t: Tables, part: Id, id: Id, days: spec_fn(BusydayRow) -> bool) -> Session {
    Session {
        stored: t,
        open: Some(
            Tables {
                user_events: with_refusal(t.user_events, part),
                busydays: without(t.busydays, days),
                ..t
            },
        ),
    }
}

proof fn declining_is_kept(
    faults: bool,
    t: Tables,
    me: Id,
    id: Id,
    a: Running<DeclineEvent>,
    reply: Reply,
    b: Running<DeclineEvent>,
)
    requires
        t.keyed(),
        declining(faults, t, me, id, a),
        exchange(faults, a, reply, b),
    ensures
        declining(faults, t, me, id, b),
{
    let m = a.step->Ask_0;
    let request = a.step->Ask_1;
    match m {
        DeclineEvent::Begin { .. } => {},
        DeclineEvent::Event { .. } => {
            if reply is Event {
                event_found(t, request->OneEvent_0, reply->Event_0, id);
            }
        },
        DeclineEvent::Invitation { .. } => {
            let c = request->OneUserEvent_0;
            match reply {
                Reply::UserEvent(Some(row)) => {
                    assert(c.admits(row));
                },
                Reply::UserEvent(None) => {
                    assert forall|k: Id| #[trigger] t.user_events.dom().contains(k) implies
                        !kept_invitation(id, me)(t.user_events[k]) by {
                        assert(!c.admits(t.user_events[k]));
                    }
                },
                _ => {},
            }
        },
        DeclineEvent::Answer { .. } => {},
        DeclineEvent::Free { .. } => {
            if reply is Count {
                without_alike(
                    t.busydays,
                    through(request->DeleteBusydays_0),
                    taken_from(me, id),
                );
            }
        },
        DeclineEvent::Count { .. } => {
            if reply is Count {
                let parts = a.session.seen().user_events;
                without_alike(
                    parts,
                    through(request->CountUserEvents_0),
                    still_invited(id),
                );
            }
        },
        DeclineEvent::FreeAll { .. } => {
            if reply is Count {
                let some = without(t.busydays, taken_from(me, id));
                without_alike(some, through(request->DeleteBusydays_0), taken_for(id));
                assert(without(some, taken_for(id)) =~= without(t.busydays, taken_for(id)));
            }
        },
        DeclineEvent::Status { .. } => {
            if reply is Done {
                let part = choose|part: Id| #[trigger]
                    declinable(t, me, id, part) && {
                        let alone = nobody_left(with_refusal(t.user_events, part), id);
                        let after = status_after(t.events[id].status, alone);
                        &&& a.session == freed(
                            t,
                            part,
                            id,
                            if alone {
                                taken_for(id)
                            } else {
                                taken_from(me, id)
                            },
                        )
                        &&& match m->to {
                            Some(status) => status == after,
                            None => after == t.events[id].status,
                        }
                    };
                assert(declined_at(t, b.session.seen(), me, id, part));
            }
        },
        DeclineEvent::Commit { .. } => {},
    }
}

/// Declining keeps the tables consistent.
pub proof fn refusal_is_consistent(t: Tables, u: Tables, me: Id, id: Id)
    requires
        consistent(t),
        declined(t, u, me, id),
    ensures
        consistent(u),
{
    let part = choose|part: Id| #[trigger] declined_at(t, u, me, id, part);
    let alone = nobody_left(u.user_events, id);
    let days = if alone {
        taken_for(id)
    } else {
        taken_from(me, id)
    };
    without_is_keyed(t.busydays, days);
    assert(u.keyed());
    assert(days_are_backed(u)) by {
        assert forall|d: Id| #[trigger]
            u.busydays.dom().contains(d) && u.busydays[d].event_id is Some implies {
            let e = u.busydays[d].event_id->0;
            &&& u.events.dom().contains(e)
            &&& u.busydays[d].date == u.events[e].date
            &&& exists|p: Id| #[trigger] accepts(u, p, u.busydays[d].user_id, e)
        } by {
            assert(t.busydays.dom().contains(d) && !days(t.busydays[d]));
            let e = t.busydays[d].event_id->0;
            let p = choose|p: Id| #[trigger] accepts(t, p, t.busydays[d].user_id, e);
            assert(accepts(u, p, u.busydays[d].user_id, e));
        }
    }
    assert(confirmations_are_reserved(u)) by {
        assert forall|e: Id| #[trigger]
            u.events.dom().contains(e) && u.events[e].status is Confirmed implies exists|
            p: Id,
            d: Id,
        | #[trigger] holds_day(u, p, d, e) by {
            assert(t.events.dom().contains(e));
            let (p, d) = choose|p: Id, d: Id| #[trigger] holds_day(t, p, d, e);
            assert(!days(t.busydays[d]));
            assert(holds_day(u, p, d, e));
        }
    }
    assert(owners_are_reserved(u)) by {
        assert forall|p: Id| #[trigger]
            u.user_events.dom().contains(p) && u.user_events[p].role is Owner
                && u.events[u.user_events[p].event_id].status.open() implies exists|d: Id|
            #[trigger] reserves(u, d, u.user_events[p].user_id, u.user_events[p].event_id) by {
            assert(t.user_events.dom().contains(p) && t.user_events.dom().contains(part));
            let d = choose|d: Id| #[trigger]
                reserves(t, d, t.user_events[p].user_id, t.user_events[p].event_id);
            assert(!days(t.busydays[d]));
            assert(reserves(u, d, u.user_events[p].user_id, u.user_events[p].event_id));
        }
    }
    assert(confirmed_by_all(u)) by {
        assert forall|p: Id| #[trigger]
            u.user_events.dom().contains(p) && u.events[u.user_events[p].event_id].status
                is Confirmed implies u.user_events[p].response_status is Accepted by {
            assert(t.user_events.dom().contains(p));
        }
    }
}

/// Declining an invitation, to the end: it succeeds unless something stands in
/// the way, and has then declined the invitation and freed the day; a refusal
/// says what does, and leaves the tables as they were.
pub proof fn decline_event_runs(
    n: nat,
    t: Tables,
    me: Id,
    id: Id,
    first: Step<DeclineEvent, StatusCode>,
    last: Running<DeclineEvent>,
)
    requires
        t.keyed(),
        first.waits_at(DeclineEvent::Begin { me, id }),
        first matches Step::Ask(m, request) && m.asking(request),
        runs(false, n, begun(first, t), last),
    ensures
        last.step matches Step::Done(Ok(code)) ==> {
            &&& code is NoContent
            &&& refusal_to_decline(t, me, id) is None
            &&& declined(t, last.session.stored, me, id)
        },
        last.step matches Step::Done(Err(why)) ==> {
            &&& refusal_to_decline(t, me, id) == Some(why)
            &&& last.session.stored == t
        },
{
    let kept = |r: Running<DeclineEvent>| declining(false, t, me, id, r);
    assert forall|c: Running<DeclineEvent>, reply: Reply, d: Running<DeclineEvent>|
        kept(c) && #[trigger] exchange(false, c, reply, d) implies kept(d) by {
        declining_is_kept(false, t, me, id, c, reply, d);
    }
    runs_keep(false, n, begun(first, t), last, kept);
}

/// Whatever fails on the way, an invitation is declined altogether if that is
/// what is answered and not at all otherwise. Tables in which nobody is taken twice
/// on one day stay so, and consistent tables stay consistent.
pub proof fn decline_event_is_atomic(
    n: nat,
    t: Tables,
    me: Id,
    id: Id,
    first: Step<DeclineEvent, StatusCode>,
    last: Running<DeclineEvent>,
)
    requires
        t.keyed(),
        first.waits_at(DeclineEvent::Begin { me, id }),
        first matches Step::Ask(m, request) && m.asking(request),
        runs(true, n, begun(first, t), last),
        last.step is Done,
    ensures
        last.step->Done_0 is Ok ==> declined(t, last.session.stored, me, id),
        last.step->Done_0 is Err ==> last.session.stored == t,
        no_day_twice(t.busydays) ==> no_day_twice(last.session.stored.busydays),
        consistent(t) ==> consistent(last.session.stored),
{
    let kept = |r: Running<DeclineEvent>| declining(true, t, me, id, r);
    assert forall|c: Running<DeclineEvent>, reply: Reply, d: Running<DeclineEvent>|
        kept(c) && #[trigger] exchange(true, c, reply, d) implies kept(d) by {
        declining_is_kept(true, t, me, id, c, reply, d);
    }
    runs_keep(true, n, begun(first, t), last, kept);
    if last.session.stored != t && consistent(t) {
        refusal_is_consistent(t, last.session.stored, me, id);
    }
}

} // verus!
