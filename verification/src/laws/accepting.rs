//! What accepting an invitation does.

use crate::controllers::event_controller::load::LoadEvent;
use crate::controllers::event_controller::respond::{
    invitation, not_accepted, open_invitation, pending_in, AcceptEvent,
};
use crate::controllers::event_controller::rules::busy_on;
use crate::controllers::models::EventResponse;
use crate::entities::{BusydayRow, EventRow, EventStatus, Id, UserEventResponse, UserEventRow};
use crate::laws::consistency::{
    accepts, confirmations_are_reserved, confirmed_by_all, consistent, days_are_backed, holds_day,
    no_day_twice, owners_are_reserved, parts_belong, reserves,
};
use crate::laws::reading::{
    event_is_read, lists_alike, reading_changes_nothing, reading_event, reading_only_reads,
    shows_stored_event,
};
use crate::machine::{Machine, Step};
use crate::model::{begun, exchange, lists, runs, runs_keep, through, Running, Session, Tables};
use crate::refusal::Refusal;
use crate::store::{Cond, Reply, UserEventTest};
use vstd::prelude::*;

verus! {

/// `me` has an invitation to an event that can be accepted: the event is open,
/// the invitation is unanswered, and the day is free.
pub open spec fn acceptable(t: Tables, me: Id, id: Id, part: Id) -> bool {
    &&& t.events.dom().contains(id)
    &&& t.events[id].status.open()
    &&& t.user_events.dom().contains(part)
    &&& open_invitation(id, me)(t.user_events[part])
    &&& forall|k: Id| #[trigger]
        t.busydays.dom().contains(k) ==> !busy_on(me, t.events[id].date)(t.busydays[k])
}

/// The parts once `part` is accepted.
pub open spec fn with_acceptance(
    parts: Map<Id, UserEventRow>,
    part: Id,
) -> Map<Id, UserEventRow> {
    parts.insert(
        part,
        UserEventRow { response_status: UserEventResponse::Accepted, ..parts[part] },
    )
}

/// The busy days once `me` is taken on a day for an event.
pub open spec fn with_reservation(
    t: Tables,
    me: Id,
    id: Id,
    day: Id,
) -> Map<Id, BusydayRow> {
    t.busydays.insert(
        day,
        BusydayRow { id: day, user_id: me, date: t.events[id].date, event_id: Some(id) },
    )
}

/// No participant's acceptance is missing.
pub open spec fn unanimous(parts: Map<Id, UserEventRow>, id: Id) -> bool {
    forall|k: Id| #[trigger] parts.dom().contains(k) ==> !not_accepted(id)(parts[k])
}

/// The tables once an invitation is accepted, and nothing else.
pub open spec fn answered(t: Tables, part: Id) -> Tables {
    Tables { user_events: with_acceptance(t.user_events, part), ..t }
}

/// The tables once `me` has accepted: the invitation is accepted, and if nobody
/// else's acceptance is missing, the day of the event is taken and the event is
/// confirmed. Nothing else is different.
pub open spec fn accepted_at(
    t: Tables,
    u: Tables,
    me: Id,
    id: Id,
    part: Id,
    day: Id,
) -> bool {
    let parts = with_acceptance(t.user_events, part);
    &&& acceptable(t, me, id, part)
    &&& unanimous(parts, id) ==> !t.busydays.dom().contains(day)
    &&& u == (Tables {
        user_events: parts,
        busydays: if unanimous(parts, id) {
            with_reservation(t, me, id, day)
        } else {
            t.busydays
        },
        events: if unanimous(parts, id) {
            t.events.insert(id, EventRow { status: EventStatus::Confirmed, ..t.events[id] })
        } else {
            t.events
        },
        ..t
    })
}

pub open spec fn accepted(t: Tables, u: Tables, me: Id, id: Id) -> bool {
    exists|part: Id, day: Id| #[trigger] accepted_at(t, u, me, id, part, day)
}

/// Why `me` cannot accept the invitation to an event, if that is so.
pub open spec fn acceptance_refusal(t: Tables, me: Id, id: Id) -> Option<Refusal> {
    if !t.events.dom().contains(id) {
        Some(Refusal::EventNotFound)
    } else if !t.events[id].status.open() {
        Some(Refusal::EventClosed)
    } else if forall|k: Id| #[trigger]
        t.user_events.dom().contains(k) ==> !invitation(id, me)(t.user_events[k]) {
        Some(Refusal::NoPendingInvitation)
    } else if forall|k: Id| #[trigger]
        t.user_events.dom().contains(k) ==> !open_invitation(id, me)(t.user_events[k]) {
        Some(Refusal::InvitationAnswered)
    } else if exists|k: Id| #[trigger]
        t.busydays.dom().contains(k) && busy_on(me, t.events[id].date)(t.busydays[k]) {
        Some(Refusal::DayReserved)
    } else {
        None
    }
}

/// What holds while `me` accepts the invitation to the event `id` of `t`.
pub open spec fn accepting(
    faults: bool,
    t: Tables,
    me: Id,
    id: Id,
    r: Running<AcceptEvent>,
) -> bool {
    match r.step {
        Step::Ask(m, request) => {
            &&& m.asking(request)
            &&& match m {
                AcceptEvent::Begin { me: a, id: b } => a == me && b == id && r.session
                    == Session::to(t),
                AcceptEvent::Event { me: a, id: b } => a == me && b == id && r.session == (Session {
                    stored: t,
                    open: Some(t),
                }),
                AcceptEvent::Invitation { me: a, id: b, date } => {
                    &&& a == me && b == id
                    &&& r.session == (Session { stored: t, open: Some(t) })
                    &&& t.events.dom().contains(id) && t.events[id].status.open()
                    &&& date == t.events[id].date
                },
                AcceptEvent::Day { me: a, id: b, date, part } => {
                    &&& a == me && b == id
                    &&& r.session == (Session { stored: t, open: Some(t) })
                    &&& t.events.dom().contains(id) && t.events[id].status.open()
                    &&& date == t.events[id].date
                    &&& t.user_events.dom().contains(part)
                    &&& open_invitation(id, me)(t.user_events[part])
                },
                AcceptEvent::Answer { me: a, id: b, date, part } => {
                    &&& a == me && b == id
                    &&& r.session == (Session { stored: t, open: Some(t) })
                    &&& date == t.events[id].date
                    &&& acceptable(t, me, id, part)
                },
                AcceptEvent::Others { me: a, id: b, date } => {
                    &&& a == me && b == id
                    &&& date == t.events[id].date
                    &&& exists|part: Id| #[trigger]
                        acceptable(t, me, id, part) && r.session == (Session {
                            stored: t,
                            open: Some(answered(t, part)),
                        })
                },
                AcceptEvent::Reservation { me: a, id: b, date } => {
                    &&& a == me && b == id
                    &&& date == t.events[id].date
                    &&& unanimous(r.session.seen().user_events, id)
                    &&& exists|part: Id| #[trigger]
                        acceptable(t, me, id, part) && r.session == (Session {
                            stored: t,
                            open: Some(answered(t, part)),
                        })
                },
                AcceptEvent::Confirm { id: b } => b == id && taken(t, me, id, r.session)
                    && unanimous(r.session.seen().user_events, id),
                AcceptEvent::Commit { id: b } => b == id && r.session.stored == t && r.session.open
                    is Some && accepted(t, r.session.seen(), me, id),
                AcceptEvent::Loading(load) => {
                    &&& r.session.open is None
                    &&& accepted(t, r.session.stored, me, id)
                    &&& !faults ==> reading_event(r.session.stored, id, load, request)
                },
            }
        },
        Step::Done(Ok(shown)) => {
            &&& accepted(t, r.session.stored, me, id)
            &&& !faults ==> acceptance_refusal(t, me, id) is None && shows_stored_event(
                r.session.stored,
                id,
                shown,
            )
        },
        Step::Done(Err(why)) => if faults {
            r.session.stored == t || accepted(t, r.session.stored, me, id)
        } else {
            r.session.stored == t && acceptance_refusal(t, me, id) == Some(why)
        },
    }
}

/// The invitation is accepted and the day is taken, in a transaction.
pub open spec fn taken(t: Tables, me: Id, id: Id, s: Session) -> bool {
    exists|part: Id, day: Id|
        {
            &&& #[trigger] acceptable(t, me, id, part)
            &&& !(#[trigger] t.busydays.dom().contains(day))
            &&& s == (Session {
                stored: t,
                open: Some(
                    Tables {
                        user_events: with_acceptance(t.user_events, part),
                        busydays: with_reservation(t, me, id, day),
                        ..t
                    },
                ),
            })
        }
}

/// The invitations that are listed tell whether there is one, and one that is
/// not answered.
proof fn invitations_found(
    t: Tables,
    c: Cond<UserEventTest>,
    rows: Seq<UserEventRow>,
    me: Id,
    id: Id,
)
    requires
        t.keyed(),
        c.means(invitation(id, me)),
        lists(t.user_events, through(c), rows),
    ensures
        rows.len() == 0 <==> forall|k: Id| #[trigger]
            t.user_events.dom().contains(k) ==> !invitation(id, me)(t.user_events[k]),
        match pending_in(rows) {
            Some(part) => t.user_events.dom().contains(part) && open_invitation(id, me)(
                t.user_events[part],
            ),
            None => forall|k: Id| #[trigger]
                t.user_events.dom().contains(k) ==> !open_invitation(id, me)(t.user_events[k]),
        },
{
    let wanted = invitation(id, me);
    lists_alike(t.user_events, through(c), wanted, rows);
    first_of_the_pending(rows);
    if rows.len() > 0 {
        assert(t.user_events.dom().contains(rows[0].id) && wanted(rows[0]));
    }
    assert forall|k: Id| #[trigger]
        t.user_events.dom().contains(k) && invitation(id, me)(t.user_events[k]) implies exists|
        i: int,
    | 0 <= i < rows.len() && (#[trigger] rows[i]) == t.user_events[k] by {
        assert(wanted(t.user_events[k]));
    }
    match pending_in(rows) {
        Some(part) => {
            let i = choose|i: int|
                0 <= i < rows.len() && (#[trigger] rows[i]).id == part && rows[i].response_status
                    is Pending;
            assert(wanted(rows[i]));
        },
        None => {
            assert forall|k: Id| #[trigger] t.user_events.dom().contains(k) implies
                !open_invitation(id, me)(t.user_events[k]) by {
                if open_invitation(id, me)(t.user_events[k]) {
                    assert(invitation(id, me)(t.user_events[k]));
                    let i = choose|i: int|
                        0 <= i < rows.len() && (#[trigger] rows[i]) == t.user_events[k];
                    assert(!(rows[i].response_status is Pending));
                }
            }
        },
    }
}

/// `pending_in` names one of the invitations that wait, if any does.
proof fn first_of_the_pending(rows: Seq<UserEventRow>)
    ensures
        match pending_in(rows) {
            Some(part) => exists|i: int|
                0 <= i < rows.len() && (#[trigger] rows[i]).id == part && rows[i].response_status
                    is Pending,
            None => forall|i: int|
                0 <= i < rows.len() ==> !((#[trigger] rows[i]).response_status is Pending),
        },
    decreases rows.len(),
{
    if rows.len() > 0 && !(rows[0].response_status is Pending) {
        let tail = rows.skip(1);
        first_of_the_pending(tail);
        assert(forall|i: int| 0 <= i < tail.len() ==> #[trigger] tail[i] == rows[i + 1]);
        match pending_in(tail) {
            Some(part) => {
                let i = choose|i: int|
                    0 <= i < tail.len() && (#[trigger] tail[i]).id == part
                        && tail[i].response_status is Pending;
                assert(rows[i + 1].id == part);
            },
            None => {
                assert forall|i: int| 0 <= i < rows.len() implies !((
                #[trigger] rows[i]).response_status is Pending) by {
                    if i > 0 {
                        assert(tail[i - 1] == rows[i]);
                    }
                }
            },
        }
    }
}

proof fn accepting_is_kept(
    faults: bool,
    t: Tables,
    me: Id,
    id: Id,
    a: Running<AcceptEvent>,
    reply: Reply,
    b: Running<AcceptEvent>,
)
    requires
        t.keyed(),
        accepting(faults, t, me, id, a),
        exchange(faults, a, reply, b),
    ensures
        accepting(faults, t, me, id, b),
{
    let m = a.step->Ask_0;
    let request = a.step->Ask_1;
    match m {
        AcceptEvent::Begin { .. } => {},
        AcceptEvent::Event { .. } => {
            let c = request->OneEvent_0;
            match reply {
                Reply::Event(Some(event)) => {
                    assert(c.admits(event));
                },
                Reply::Event(None) => {
                    if t.events.dom().contains(id) {
                        assert(c.admits(t.events[id]));
                    }
                },
                _ => {},
            }
        },
        AcceptEvent::Invitation { .. } => {
            if reply is UserEvents {
                invitations_found(
                    t,
                    request->AllUserEvents_0,
                    reply->UserEvents_0@,
                    me,
                    id,
                );
            }
        },
        AcceptEvent::Day { .. } => {
            let c = request->OneBusyday_0;
            match reply {
                Reply::Busyday(Some(row)) => {
                    assert(c.admits(row));
                },
                Reply::Busyday(None) => {
                    assert forall|k: Id| #[trigger] t.busydays.dom().contains(k) implies !busy_on(
                        me,
                        t.events[id].date,
                    )(t.busydays[k]) by {
                        assert(!c.admits(t.busydays[k]));
                    }
                },
                _ => {},
            }
        },
        AcceptEvent::Answer { .. } => {},
        AcceptEvent::Others { .. } => {
            let c = request->OneUserEvent_0;
            let u = a.session.seen();
            match reply {
                Reply::UserEvent(Some(row)) => {
                    assert(c.admits(row));
                    assert(!unanimous(u.user_events, id));
                    let part = choose|part: Id| #[trigger]
                        acceptable(t, me, id, part) && a.session == (Session {
                            stored: t,
                            open: Some(answered(t, part)),
                        });
                    assert(accepted_at(t, u, me, id, part, 0));
                },
                Reply::UserEvent(None) => {
                    assert forall|k: Id| #[trigger] u.user_events.dom().contains(k) implies
                        !not_accepted(id)(u.user_events[k]) by {
                        assert(!c.admits(u.user_events[k]));
                    }
                },
                _ => {},
            }
        },
        AcceptEvent::Reservation { .. } => {},
        AcceptEvent::Confirm { .. } => {
            if reply is Done {
                let (part, day) = choose|part: Id, day: Id|
                    {
                        &&& #[trigger] acceptable(t, me, id, part)
                        &&& !(#[trigger] t.busydays.dom().contains(day))
                        &&& a.session == (Session {
                            stored: t,
                            open: Some(
                                Tables {
                                    user_events: with_acceptance(t.user_events, part),
                                    busydays: with_reservation(t, me, id, day),
                                    ..t
                                },
                            ),
                        })
                    };
                assert(accepted_at(t, b.session.seen(), me, id, part, day));
            }
        },
        AcceptEvent::Commit { .. } => {},
        AcceptEvent::Loading(load) => {
            reading_only_reads(load, request);
            reading_changes_nothing(a.session, request, reply, b.session);
            if !faults {
                let u = a.session.stored;
                let inner: Step<LoadEvent, EventResponse> = match b.step {
                    Step::Ask(AcceptEvent::Loading(l), q) => Step::Ask(l, q),
                    Step::Done(x) => Step::Done(x),
                    _ => arbitrary(),
                };
                assert(u.keyed());
                event_is_read(u, id, load, request, reply, inner);
            }
        },
    }
}

/// Accepting takes nobody's day that is taken already.
pub proof fn acceptance_takes_a_free_day(t: Tables, u: Tables, me: Id, id: Id)
    requires
        no_day_twice(t.busydays),
        accepted(t, u, me, id),
    ensures
        no_day_twice(u.busydays),
{
    let (part, day) = choose|part: Id, day: Id| #[trigger] accepted_at(t, u, me, id, part, day);
}

/// Accepting keeps the tables consistent.
pub proof fn acceptance_is_consistent(t: Tables, u: Tables, me: Id, id: Id)
    requires
        consistent(t),
        accepted(t, u, me, id),
    ensures
        consistent(u),
{
    let (part, day) = choose|part: Id, day: Id| #[trigger] accepted_at(t, u, me, id, part, day);
    let last = unanimous(u.user_events, id);
    assert(u.keyed());
    assert(parts_belong(u));
    assert(accepts(u, part, me, id));
    assert(t.user_events.dom().contains(part));
    assert(days_are_backed(u)) by {
        assert forall|d: Id| #[trigger]
            u.busydays.dom().contains(d) && u.busydays[d].event_id is Some implies {
            let e = u.busydays[d].event_id->0;
            &&& u.events.dom().contains(e)
            &&& u.busydays[d].date == u.events[e].date
            &&& exists|p: Id| #[trigger] accepts(u, p, u.busydays[d].user_id, e)
        } by {
            if last && d == day {
                assert(u.busydays[d].event_id == Some(id));
                assert(u.events[id].date == t.events[id].date);
                assert(accepts(u, part, u.busydays[d].user_id, id));
            } else {
                assert(t.busydays.dom().contains(d));
                let e = t.busydays[d].event_id->0;
                let p = choose|p: Id| #[trigger] accepts(t, p, t.busydays[d].user_id, e);
                assert(accepts(u, p, u.busydays[d].user_id, e));
            }
        }
    }
    assert(owners_are_reserved(u)) by {
        assert forall|p: Id| #[trigger]
            u.user_events.dom().contains(p) && u.user_events[p].role is Owner
                && u.events[u.user_events[p].event_id].status.open() implies exists|d: Id|
            #[trigger] reserves(u, d, u.user_events[p].user_id, u.user_events[p].event_id) by {
            assert(t.user_events.dom().contains(p));
            let d = choose|d: Id| #[trigger]
                reserves(t, d, t.user_events[p].user_id, t.user_events[p].event_id);
            assert(reserves(u, d, u.user_events[p].user_id, u.user_events[p].event_id));
        }
    }
    assert(confirmations_are_reserved(u)) by {
        assert forall|e: Id| #[trigger]
            u.events.dom().contains(e) && u.events[e].status is Confirmed implies exists|
            p: Id,
            d: Id,
        | #[trigger] holds_day(u, p, d, e) by {
            assert(t.events.dom().contains(e));
            if last && e == id {
                assert(holds_day(u, part, day, id));
            } else {
                let (p, d) = choose|p: Id, d: Id| #[trigger] holds_day(t, p, d, e);
                assert(holds_day(u, p, d, e));
            }
        }
    }
    assert(confirmed_by_all(u)) by {
        assert forall|p: Id| #[trigger]
            u.user_events.dom().contains(p) && u.events[u.user_events[p].event_id].status
                is Confirmed implies u.user_events[p].response_status is Accepted by {
            assert(t.user_events.dom().contains(p));
            if u.user_events[p].event_id == id && unanimous(u.user_events, id) {
                assert(!not_accepted(id)(u.user_events[p]));
            }
        }
    }
}

/// Accepting an invitation, to the end: a reply shows the event as it is then
/// stored, with the invitation accepted and, if no participant's acceptance is
/// missing, the day taken and the event confirmed; a refusal says why `me` cannot
/// accept, and leaves the tables as they were.
pub proof fn accept_event_runs(
    n: nat,
    t: Tables,
    me: Id,
    id: Id,
    first: Step<AcceptEvent, EventResponse>,
    last: Running<AcceptEvent>,
)
    requires
        t.keyed(),
        first.waits_at(AcceptEvent::Begin { me, id }),
        first matches Step::Ask(m, request) && m.asking(request),
        runs(false, n, begun(first, t), last),
    ensures
        last.step matches Step::Done(Ok(shown)) ==> {
            &&& acceptance_refusal(t, me, id) is None
            &&& accepted(t, last.session.stored, me, id)
            &&& shows_stored_event(last.session.stored, id, shown)
        },
        last.step matches Step::Done(Err(why)) ==> {
            &&& acceptance_refusal(t, me, id) == Some(why)
            &&& last.session.stored == t
        },
{
    let kept = |r: Running<AcceptEvent>| accepting(false, t, me, id, r);
    assert forall|c: Running<AcceptEvent>, reply: Reply, d: Running<AcceptEvent>|
        kept(c) && #[trigger] exchange(false, c, reply, d) implies kept(d) by {
        accepting_is_kept(false, t, me, id, c, reply, d);
    }
    runs_keep(false, n, begun(first, t), last, kept);
}

/// Whatever fails on the way, an invitation is accepted altogether or not at all.
/// Tables in which nobody is taken twice on one day stay so, and consistent tables
/// stay consistent.
pub proof fn accept_event_is_atomic(
    n: nat,
    t: Tables,
    me: Id,
    id: Id,
    first: Step<AcceptEvent, EventResponse>,
    last: Running<AcceptEvent>,
)
    requires
        t.keyed(),
        first.waits_at(AcceptEvent::Begin { me, id }),
        first matches Step::Ask(m, request) && m.asking(request),
        runs(true, n, begun(first, t), last),
        last.step is Done,
    ensures
        last.session.stored == t || accepted(t, last.session.stored, me, id),
        last.step->Done_0 is Ok ==> accepted(t, last.session.stored, me, id),
        no_day_twice(t.busydays) ==> no_day_twice(last.session.stored.busydays),
        consistent(t) ==> consistent(last.session.stored),
{
    let kept = |r: Running<AcceptEvent>| accepting(true, t, me, id, r);
    assert forall|c: Running<AcceptEvent>, reply: Reply, d: Running<AcceptEvent>|
        kept(c) && #[trigger] exchange(true, c, reply, d) implies kept(d) by {
        accepting_is_kept(true, t, me, id, c, reply, d);
    }
    runs_keep(true, n, begun(first, t), last, kept);
    if last.session.stored != t {
        if no_day_twice(t.busydays) {
            acceptance_takes_a_free_day(t, last.session.stored, me, id);
        }
        if consistent(t) {
            acceptance_is_consistent(t, last.session.stored, me, id);
        }
    }
}

} // verus!
