//! What listing the active events shows, and which events it closes.

use crate::controllers::event_controller::active::GetActiveEvents;
use crate::controllers::event_controller::list::events_of;
use crate::controllers::event_controller::load::all_accepted;
use crate::controllers::models::{EventResponse, ParticipantResponse};
use crate::entities::{accepted_text, EventRow, EventStatus, Id, UserEventRow, UserRow};
use crate::laws::consistency::{
    accepts, confirmations_are_reserved, consistent, days_are_backed, holds_day,
    owners_are_reserved, reserves,
};
use crate::laws::listing::{has_part, part_ids, parts_name_events, shows_each, shows_list};
use crate::laws::reading::{
    event_is_read, lists_alike, people_are_read, people_of, reading_changes_nothing, reading_event,
    reading_people, shows_people, shows_stored_event,
};
use crate::machine::{Machine, Step};
use crate::model::{
    begun, events_in_order, exchange, lists, parts_in_order, runs, runs_keep, through, Running,
    Session, Tables,
};
use crate::store::{Order, Reply};
use crate::time::Date;
use vstd::prelude::*;

verus! {

/// The parts that `me` has in events and has not declined.
pub open spec fn undeclined(me: Id) -> spec_fn(UserEventRow) -> bool {
    |row: UserEventRow| row.user_id == me && !(row.response_status is Declined)
}

/// The events in which `me` has a part and has not declined it.
pub open spec fn still_in(t: Tables, me: Id) -> spec_fn(EventRow) -> bool {
    |event: EventRow| has_part(t, undeclined(me), event.id)
}

/// All the people in an event have accepted it, as far as they are known users.
pub open spec fn agreed(t: Tables, id: Id) -> bool {
    forall|k: Id| #[trigger]
        t.user_events.dom().contains(k) && t.user_events[k].event_id == id
            && t.users.dom().contains(t.user_events[k].user_id)
            ==> t.user_events[k].response_status is Accepted
}

/// How an event is closed whose day is over.
pub open spec fn fate(t: Tables, id: Id) -> EventStatus {
    if agreed(t, id) {
        EventStatus::Completed
    } else {
        EventStatus::Canceled
    }
}

/// The tables with the events `rows` closed, as far as their days are over.
pub open spec fn swept(t: Tables, today: Date, rows: Seq<EventRow>) -> Tables
    decreases rows.len(),
{
    if rows.len() == 0 {
        t
    } else {
        let earlier = swept(t, today, rows.drop_last());
        let last = rows.last();
        if last.date.lt(today) {
            Tables {
                events: earlier.events.insert(
                    last.id,
                    EventRow { status: fate(t, last.id), ..last },
                ),
                ..earlier
            }
        } else {
            earlier
        }
    }
}

/// `found` shows, of the events `rows`, those that lie ahead and that all have
/// accepted.
pub open spec fn shows_active(
    t: Tables,
    today: Date,
    rows: Seq<EventRow>,
    found: Seq<EventResponse>,
) -> bool
    decreases rows.len(),
{
    if rows.len() == 0 {
        found.len() == 0
    } else {
        let last = rows.last();
        if !last.date.lt(today) && agreed(t, last.id) {
            &&& found.len() > 0
            &&& shows_stored_event(t, last.id, found.last())
            &&& shows_active(t, today, rows.drop_last(), found.drop_last())
        } else {
            shows_active(t, today, rows.drop_last(), found)
        }
    }
}

/// `u` is `t`, but for events whose day is over: some of them may be closed.
pub open spec fn only_closes(t: Tables, u: Tables, today: Date) -> bool {
    &&& u == (Tables { events: u.events, ..t })
    &&& u.events.dom() == t.events.dom()
    &&& forall|k: Id| #[trigger]
        t.events.dom().contains(k) ==> {
            ||| u.events[k] == t.events[k]
            ||| {
                &&& t.events[k].date.lt(today)
                &&& u.events[k].status is Completed || u.events[k].status is Canceled
                &&& u.events[k] == (EventRow { status: u.events[k].status, ..t.events[k] })
            }
        }
}

/// The events of a list are stored, but for their status.
pub open spec fn stored_but_for_status(t: Tables, rows: Seq<EventRow>) -> bool {
    forall|i: int|
        0 <= i < rows.len() ==> {
            &&& t.events.dom().contains((#[trigger] rows[i]).id)
            &&& t.events[rows[i].id].date == rows[i].date
        }
}

/// What holds while the active events are listed, whatever fails.
pub open spec fn closing_some(t: Tables, today: Date, r: Running<GetActiveEvents>) -> bool {
    &&& r.session.open is None
    &&& only_closes(t, r.session.stored, today)
    &&& match r.step {
        Step::Ask(m, request) => {
            &&& m.asking(request)
            &&& match m {
                GetActiveEvents::Parts { me, today: d } => d == today,
                GetActiveEvents::Events { today: d, among } => d == today,
                GetActiveEvents::People { today: d, events, at, people, found } => d == today
                    && stored_but_for_status(t, events@) && at < events@.len(),
                GetActiveEvents::Close { today: d, events, at, to, found } => {
                    &&& d == today
                    &&& stored_but_for_status(t, events@)
                    &&& at < events@.len()
                    &&& events@[at as int].date.lt(today)
                    &&& to is Completed || to is Canceled
                },
                GetActiveEvents::Loading { today: d, events, at, load, found } => d == today
                    && stored_but_for_status(t, events@) && at < events@.len(),
            }
        },
        Step::Done(_) => true,
    }
}

proof fn closing_some_is_kept(
    t: Tables,
    today: Date,
    a: Running<GetActiveEvents>,
    reply: Reply,
    b: Running<GetActiveEvents>,
)
    requires
        t.keyed(),
        closing_some(t, today, a),
        exchange(true, a, reply, b),
    ensures
        closing_some(t, today, b),
{
    let request = a.step->Ask_1;
    match a.step->Ask_0 {
        GetActiveEvents::Events { .. } => {
            reading_changes_nothing(a.session, request, reply, b.session);
            if reply is Events {
                let rows = reply->Events_0@;
                assert forall|i: int| 0 <= i < rows.len() implies {
                    &&& t.events.dom().contains((#[trigger] rows[i]).id)
                    &&& t.events[rows[i].id].date == rows[i].date
                } by {
                    assert(a.session.stored.events.dom().contains(rows[i].id));
                }
            }
        },
        GetActiveEvents::Close { today: _, events, at, to, found } => {
            let u = a.session.stored;
            let v = b.session.stored;
            let id = events@[at as int].id;
            assert(t.events.dom().contains(id));
            assert(only_closes(t, v, today)) by {
                assert(v.events.dom() =~= t.events.dom());
            }
        },
        _ => {
            reading_changes_nothing(a.session, request, reply, b.session);
        },
    }
}

/// Listing the active events changes nothing but the status of events whose day
/// is over, whatever fails on the way; consistent tables stay consistent.
pub proof fn active_events_only_close(
    n: nat,
    t: Tables,
    me: Id,
    today: Date,
    first: Step<GetActiveEvents, Vec<EventResponse>>,
    last: Running<GetActiveEvents>,
)
    requires
        t.keyed(),
        first.waits_at(GetActiveEvents::Parts { me, today }),
        first matches Step::Ask(m, request) && m.asking(request),
        runs(true, n, begun(first, t), last),
    ensures
        only_closes(t, last.session.stored, today),
        consistent(t) ==> consistent(last.session.stored),
{
    let kept = |r: Running<GetActiveEvents>| closing_some(t, today, r);
    assert forall|c: Running<GetActiveEvents>, reply: Reply, d: Running<GetActiveEvents>|
        kept(c) && #[trigger] exchange(true, c, reply, d) implies kept(d) by {
        closing_some_is_kept(t, today, c, reply, d);
    }
    runs_keep(true, n, begun(first, t), last, kept);
    if consistent(t) {
        closing_is_consistent(t, last.session.stored, today);
    }
}

/// Closing events whose day is over keeps the tables consistent.
pub proof fn closing_is_consistent(t: Tables, u: Tables, today: Date)
    requires
        consistent(t),
        only_closes(t, u, today),
    ensures
        consistent(u),
{
    assert(u.keyed());
    assert(days_are_backed(u)) by {
        assert forall|d: Id| #[trigger]
            u.busydays.dom().contains(d) && u.busydays[d].event_id is Some implies {
            let e = u.busydays[d].event_id->0;
            &&& u.events.dom().contains(e)
            &&& u.busydays[d].date == u.events[e].date
            &&& exists|p: Id| #[trigger] accepts(u, p, u.busydays[d].user_id, e)
        } by {
            let e = t.busydays[d].event_id->0;
            let p = choose|p: Id| #[trigger] accepts(t, p, t.busydays[d].user_id, e);
            assert(t.events.dom().contains(e));
            assert(accepts(u, p, u.busydays[d].user_id, e));
        }
    }
    assert(confirmations_are_reserved(u)) by {
        assert forall|e: Id| #[trigger]
            u.events.dom().contains(e) && u.events[e].status is Confirmed implies exists|
            p: Id,
            d: Id,
        | #[trigger] holds_day(u, p, d, e) by {
            assert(t.events.dom().contains(e));
            let (p, d) = choose|p: Id, d: Id| #[trigger] holds_day(t, p, d, e);
            assert(holds_day(u, p, d, e));
        }
    }
    assert(owners_are_reserved(u)) by {
        assert forall|p: Id| #[trigger]
            u.user_events.dom().contains(p) && u.user_events[p].role is Owner
                && u.events[u.user_events[p].event_id].status.open() implies exists|d: Id|
            #[trigger] reserves(u, d, u.user_events[p].user_id, u.user_events[p].event_id) by {
            assert(t.events.dom().contains(t.user_events[p].event_id));
            let d = choose|d: Id| #[trigger]
                reserves(t, d, t.user_events[p].user_id, t.user_events[p].event_id);
            assert(reserves(u, d, u.user_events[p].user_id, u.user_events[p].event_id));
        }
    }
}

/// The events `rows` are those stored in `t`, each once.
pub open spec fn stored_once(t: Tables, rows: Seq<EventRow>) -> bool {
    &&& forall|i: int|
        0 <= i < rows.len() ==> t.events.dom().contains((#[trigger] rows[i]).id)
            && t.events[rows[i].id] == rows[i]
    &&& forall|i: int, j: int|
        0 <= i < j < rows.len() ==> (#[trigger] rows[i]).id != (#[trigger] rows[j]).id
}

/// Of the events, those among `rows` whose day is over are closed, and the others
/// are as they were.
proof fn what_is_swept(t: Tables, today: Date, rows: Seq<EventRow>)
    requires
        t.keyed(),
        stored_once(t, rows),
    ensures
        ({
            let u = swept(t, today, rows);
            &&& u == (Tables { events: u.events, ..t })
            &&& u.events.dom() == t.events.dom()
            &&& forall|k: Id| #[trigger]
                t.events.dom().contains(k) ==> u.events[k] == if t.events[k].date.lt(today)
                    && rows.contains(t.events[k]) {
                    EventRow { status: fate(t, k), ..t.events[k] }
                } else {
                    t.events[k]
                }
        }),
        swept(t, today, rows).keyed(),
    decreases rows.len(),
{
    let u = swept(t, today, rows);
    if rows.len() > 0 {
        let fewer = rows.drop_last();
        let last = rows.last();
        assert(forall|i: int| 0 <= i < fewer.len() ==> #[trigger] fewer[i] == rows[i]);
        assert(rows[rows.len() - 1] == last);
        what_is_swept(t, today, fewer);
        assert(u.events.dom() =~= t.events.dom());
        assert forall|k: Id| #[trigger] t.events.dom().contains(k) implies u.events[k]
            == if t.events[k].date.lt(today) && rows.contains(t.events[k]) {
            EventRow { status: fate(t, k), ..t.events[k] }
        } else {
            t.events[k]
        } by {
            let e = t.events[k];
            if rows.contains(e) {
                let i = choose|i: int| 0 <= i < rows.len() && rows[i] == e;
                assert(e != last ==> fewer[i] == e);
            }
            if fewer.contains(e) {
                let i = choose|i: int| 0 <= i < fewer.len() && fewer[i] == e;
                assert(rows[i] == e);
            }
            if k == last.id {
                assert(rows.contains(e));
            }
        }
    }
    assert forall|k: Id| #[trigger] u.events.dom().contains(k) implies u.events[k].id == k by {
        assert(t.events.dom().contains(k));
    }
}

/// The people that are shown have all accepted if the parts of all known users
/// are accepted.
proof fn shown_acceptance(
    users: Map<Id, UserRow>,
    rows: Seq<UserEventRow>,
    people: Seq<ParticipantResponse>,
)
    requires
        people_of(users, rows, people),
    ensures
        all_accepted(people) <==> forall|i: int|
            0 <= i < rows.len() && users.dom().contains((#[trigger] rows[i]).user_id)
                ==> rows[i].response_status is Accepted,
    decreases rows.len(),
{
    if rows.len() > 0 {
        let fewer = rows.drop_last();
        let last = rows.last();
        assert(forall|i: int| 0 <= i < fewer.len() ==> #[trigger] fewer[i] == rows[i]);
        assert(rows[rows.len() - 1] == last);
        if users.dom().contains(last.user_id) {
            let before = people.drop_last();
            shown_acceptance(users, fewer, before);
            accepted_text(last.response_status);
            assert(people[people.len() - 1] == people.last());
            assert(forall|i: int| 0 <= i < before.len() ==> #[trigger] before[i] == people[i]);
            if all_accepted(people) {
                assert forall|i: int| 0 <= i < before.len() implies (
                #[trigger] before[i]).response_status@ == "accepted"@ by {
                    assert(people[i].response_status@ == "accepted"@);
                }
                assert forall|i: int|
                    0 <= i < rows.len() && users.dom().contains(
                        (#[trigger] rows[i]).user_id,
                    ) implies rows[i].response_status is Accepted by {
                    if i < fewer.len() {
                        assert(fewer[i] == rows[i]);
                    }
                }
            }
            if forall|i: int|
                0 <= i < rows.len() && users.dom().contains((#[trigger] rows[i]).user_id)
                    ==> rows[i].response_status is Accepted {
                assert(all_accepted(before)) by {
                    assert forall|i: int|
                        0 <= i < fewer.len() && users.dom().contains(
                            (#[trigger] fewer[i]).user_id,
                        ) implies fewer[i].response_status is Accepted by {
                        assert(rows[i] == fewer[i]);
                    }
                }
                assert forall|i: int| 0 <= i < people.len() implies (
                #[trigger] people[i]).response_status@ == "accepted"@ by {
                    if i < before.len() {
                        assert(before[i] == people[i]);
                    }
                }
            }
        } else {
            shown_acceptance(users, fewer, people);
            if all_accepted(people) {
                assert forall|i: int|
                    0 <= i < rows.len() && users.dom().contains(
                        (#[trigger] rows[i]).user_id,
                    ) implies rows[i].response_status is Accepted by {
                    if i < fewer.len() {
                        assert(fewer[i] == rows[i]);
                    }
                }
            }
            if forall|i: int|
                0 <= i < rows.len() && users.dom().contains((#[trigger] rows[i]).user_id)
                    ==> rows[i].response_status is Accepted {
                assert forall|i: int|
                    0 <= i < fewer.len() && users.dom().contains(
                        (#[trigger] fewer[i]).user_id,
                    ) implies fewer[i].response_status is Accepted by {
                    assert(rows[i] == fewer[i]);
                }
            }
        }
    }
}

/// The people that are shown of an event have all accepted if its people have.
proof fn shown_agreement(t: Tables, id: Id, people: Seq<ParticipantResponse>)
    requires
        t.keyed(),
        shows_people(t, id, people),
    ensures
        all_accepted(people) <==> agreed(t, id),
{
    let of_it = |row: UserEventRow| row.event_id == id;
    let rows = choose|rows: Seq<UserEventRow>|
        {
            &&& lists(t.user_events, of_it, rows)
            &&& parts_in_order(rows, Order::Ascending)
            &&& #[trigger] people_of(t.users, rows, people)
        };
    shown_acceptance(t.users, rows, people);
    if all_accepted(people) {
        assert forall|k: Id| #[trigger]
            t.user_events.dom().contains(k) && t.user_events[k].event_id == id
                && t.users.dom().contains(
                t.user_events[k].user_id,
            ) implies t.user_events[k].response_status is Accepted by {
            assert(of_it(t.user_events[k]));
            let i = choose|i: int| 0 <= i < rows.len() && (#[trigger] rows[i]) == t.user_events[k];
            assert(rows[i].response_status is Accepted);
        }
    }
    if agreed(t, id) {
        assert forall|i: int|
            0 <= i < rows.len() && t.users.dom().contains(
                (#[trigger] rows[i]).user_id,
            ) implies rows[i].response_status is Accepted by {
            assert(t.user_events.dom().contains(rows[i].id));
        }
    }
}

/// The events that come first in the list have been dealt with.
pub open spec fn dealt_with(
    t: Tables,
    me: Id,
    today: Date,
    events: Seq<EventRow>,
    at: int,
    found: Seq<EventResponse>,
    s: Session,
) -> bool {
    &&& lists(t.events, still_in(t, me), events)
    &&& 0 <= at <= events.len()
    &&& s == Session::to(swept(t, today, events.take(at)))
    &&& shows_active(t, today, events.take(at), found)
}

/// What holds while the active events are listed and nothing fails.
pub open spec fn sweeping(t: Tables, me: Id, today: Date, r: Running<GetActiveEvents>) -> bool {
    match r.step {
        Step::Ask(m, request) => {
            &&& m.asking(request)
            &&& match m {
                GetActiveEvents::Parts { me: a, today: d } => a == me && d == today && r.session
                    == Session::to(t),
                GetActiveEvents::Events { today: d, among } => d == today && r.session
                    == Session::to(t) && part_ids(t, undeclined(me), among@),
                GetActiveEvents::People { today: d, events, at, people, found } => {
                    &&& d == today
                    &&& at < events@.len()
                    &&& dealt_with(t, me, today, events@, at as int, found@, r.session)
                    &&& reading_people(
                        r.session.stored,
                        events@[at as int].id,
                        people,
                        request,
                    )
                },
                GetActiveEvents::Close { today: d, events, at, to, found } => {
                    &&& d == today
                    &&& at < events@.len()
                    &&& dealt_with(t, me, today, events@, at as int, found@, r.session)
                    &&& events@[at as int].date.lt(today)
                    &&& to == fate(t, events@[at as int].id)
                },
                GetActiveEvents::Loading { today: d, events, at, load, found } => {
                    &&& d == today
                    &&& at < events@.len()
                    &&& dealt_with(t, me, today, events@, at as int, found@, r.session)
                    &&& !events@[at as int].date.lt(today)
                    &&& agreed(t, events@[at as int].id)
                    &&& reading_event(r.session.stored, events@[at as int].id, load, request)
                },
            }
        },
        Step::Done(Ok(found)) => exists|rows: Seq<EventRow>| #[trigger]
            dealt_with(t, me, today, rows, rows.len() as int, found@, r.session),
        Step::Done(Err(_)) => false,
    }
}

proof fn next_is_dealt_with(
    t: Tables,
    me: Id,
    today: Date,
    events: Vec<EventRow>,
    at: int,
    found: Seq<EventResponse>,
    b: Running<GetActiveEvents>,
)
    requires
        dealt_with(t, me, today, events@, at, found, b.session),
        GetActiveEvents::goes_on(today, events, at, found, b.step),
        b.step matches Step::Ask(m, request) ==> m.asking(request),
    ensures
        sweeping(t, me, today, b),
{
}

proof fn listed_once(t: Tables, me: Id, rows: Seq<EventRow>, at: int)
    requires
        lists(t.events, still_in(t, me), rows),
        0 <= at <= rows.len(),
    ensures
        stored_once(t, rows),
        stored_once(t, rows.take(at)),
{
}

proof fn sweeping_is_kept(
    t: Tables,
    me: Id,
    today: Date,
    a: Running<GetActiveEvents>,
    reply: Reply,
    b: Running<GetActiveEvents>,
)
    requires
        t.keyed(),
        sweeping(t, me, today, a),
        exchange(false, a, reply, b),
    ensures
        sweeping(t, me, today, b),
{
    let request = a.step->Ask_1;
    match a.step->Ask_0 {
        GetActiveEvents::Parts { .. } => {
            reading_changes_nothing(a.session, request, reply, b.session);
            let rows = reply->UserEvents_0@;
            lists_alike(t.user_events, through(request->AllUserEvents_0), undeclined(me), rows);
            parts_name_events(t, undeclined(me), rows);
            if rows.len() == 0 {
                let none = Seq::<EventRow>::empty();
                assert(lists(t.events, still_in(t, me), none)) by {
                    assert forall|k: Id| #[trigger] t.events.dom().contains(k) implies !still_in(
                        t,
                        me,
                    )(t.events[k]) by {
                        assert(!events_of(rows).contains(t.events[k].id));
                    }
                }
                assert(none.take(0) == none);
                assert(dealt_with(
                    t,
                    me,
                    today,
                    none,
                    none.len() as int,
                    b.step->Done_0->Ok_0@,
                    b.session,
                ));
            }
        },
        GetActiveEvents::Events { today: _, among } => {
            reading_changes_nothing(a.session, request, reply, b.session);
            let events = reply->Events_0;
            assert forall|row: EventRow| #[trigger]
                through(request->AllEvents_0)(row) == still_in(t, me)(row) by {
                assert(request->AllEvents_0.admits(row) == among@.contains(row.id));
            }
            lists_alike(t.events, through(request->AllEvents_0), still_in(t, me), events@);
            assert(events@.take(0) == Seq::<EventRow>::empty());
            next_is_dealt_with(t, me, today, events, 0, Seq::empty(), b);
        },
        GetActiveEvents::People { today: _, events, at, people, found } => {
            let u = a.session.stored;
            let id = events@[at as int].id;
            reading_changes_nothing(a.session, request, reply, b.session);
            listed_once(t, me, events@, at as int);
            what_is_swept(t, today, events@.take(at as int));
            if b.step matches Step::Done(Err(why)) && people.next(reply, Step::Done(Err(why))) {
                people_are_read(
                    u,
                    id,
                    people,
                    request,
                    reply,
                    Step::Done(Err(b.step->Done_0->Err_0)),
                );
            } else if b.step matches Step::Ask(
                GetActiveEvents::People { today: d, events: e, at: i, people: p, found: f },
                q,
            ) && d == today && e == events && i == at && f == found && people.next(
                reply,
                Step::Ask(p, q),
            ) {
                people_are_read(
                    u,
                    id,
                    people,
                    request,
                    reply,
                    Step::Ask(b.step->Ask_0->people, b.step->Ask_1),
                );
            } else {
                let all = choose|all: Vec<ParticipantResponse>|
                    {
                        &&& #[trigger] people.next(reply, Step::Done(Ok(all)))
                        &&& GetActiveEvents::judges(today, events, at, found, all@, b.step)
                    };
                people_are_read(u, id, people, request, reply, Step::Done(Ok(all)));
                assert(shows_people(t, id, all@));
                shown_agreement(t, id, all@);
                let event = events@[at as int];
                if !event.date.lt(today) && !all_accepted(all@) {
                    assert(events@.take(at + 1).drop_last() == events@.take(at as int));
                    assert(events@.take(at + 1).last() == event);
                    next_is_dealt_with(t, me, today, events, at + 1, found@, b);
                }
            }
        },
        GetActiveEvents::Close { today: _, events, at, to, found } => {
            let event = events@[at as int];
            listed_once(t, me, events@, at as int);
            what_is_swept(t, today, events@.take(at as int));
            assert(!events@.take(at as int).contains(event)) by {
                if events@.take(at as int).contains(event) {
                    let i = choose|i: int|
                        0 <= i < at && events@.take(at as int)[i] == event;
                    assert(events@[i] == event);
                }
            }
            assert(t.events.dom().contains(event.id));
            assert(a.session.stored.events[event.id] == event);
            assert(events@.take(at + 1).drop_last() == events@.take(at as int));
            assert(events@.take(at + 1).last() == event);
            next_is_dealt_with(t, me, today, events, at + 1, found@, b);
        },
        GetActiveEvents::Loading { today: _, events, at, load, found } => {
            let u = a.session.stored;
            let event = events@[at as int];
            let id = event.id;
            reading_changes_nothing(a.session, request, reply, b.session);
            listed_once(t, me, events@, at as int);
            what_is_swept(t, today, events@.take(at as int));
            assert(t.events.dom().contains(id));
            assert(u.events[id] == t.events[id]);
            if b.step matches Step::Done(Err(why)) && load.next(reply, Step::Done(Err(why))) {
                event_is_read(
                    u,
                    id,
                    load,
                    request,
                    reply,
                    Step::Done(Err(b.step->Done_0->Err_0)),
                );
            } else if b.step matches Step::Ask(
                GetActiveEvents::Loading { today: d, events: e, at: i, load: l, found: f },
                q,
            ) && d == today && e == events && i == at && f == found && load.next(
                reply,
                Step::Ask(l, q),
            ) {
                event_is_read(
                    u,
                    id,
                    load,
                    request,
                    reply,
                    Step::Ask(b.step->Ask_0->load, b.step->Ask_1),
                );
            } else {
                let shown = choose|shown: EventResponse|
                    {
                        &&& #[trigger] load.next(reply, Step::Done(Ok(shown)))
                        &&& GetActiveEvents::goes_on(
                            today,
                            events,
                            at + 1,
                            found@.push(shown),
                            b.step,
                        )
                    };
                event_is_read(u, id, load, request, reply, Step::Done(Ok(shown)));
                assert(shows_stored_event(t, id, shown));
                assert(events@.take(at + 1).drop_last() == events@.take(at as int));
                assert(events@.take(at + 1).last() == event);
                assert(found@.push(shown).drop_last() == found@);
                next_is_dealt_with(t, me, today, events, at + 1, found@.push(shown), b);
            }
        },
    }
}

/// The events in which `me` is still in, that lie ahead, and that all have
/// accepted.
pub open spec fn active(t: Tables, me: Id, today: Date) -> spec_fn(EventRow) -> bool {
    |event: EventRow|
        still_in(t, me)(event) && !event.date.lt(today) && agreed(t, event.id)
}

/// The active events of a list.
spec fn active_of(t: Tables, today: Date, rows: Seq<EventRow>) -> Seq<EventRow>
    decreases rows.len(),
{
    if rows.len() == 0 {
        Seq::empty()
    } else {
        let earlier = active_of(t, today, rows.drop_last());
        let last = rows.last();
        if !last.date.lt(today) && agreed(t, last.id) {
            earlier.push(last)
        } else {
            earlier
        }
    }
}

proof fn what_is_active(t: Tables, today: Date, rows: Seq<EventRow>, found: Seq<EventResponse>)
    requires
        stored_once(t, rows),
        shows_active(t, today, rows, found),
    ensures
        stored_once(t, active_of(t, today, rows)),
        shows_each(t, active_of(t, today, rows), found),
        forall|row: EventRow| #[trigger]
            active_of(t, today, rows).contains(row) <==> rows.contains(row) && !row.date.lt(today)
                && agreed(t, row.id),
    decreases rows.len(),
{
    let some = active_of(t, today, rows);
    if rows.len() > 0 {
        let fewer = rows.drop_last();
        let last = rows.last();
        assert(forall|i: int| 0 <= i < fewer.len() ==> #[trigger] fewer[i] == rows[i]);
        assert(rows[rows.len() - 1] == last);
        let ahead = !last.date.lt(today) && agreed(t, last.id);
        let before = if ahead {
            found.drop_last()
        } else {
            found
        };
        what_is_active(t, today, fewer, before);
        let earlier = active_of(t, today, fewer);
        assert forall|row: EventRow| #[trigger] rows.contains(row) <==> fewer.contains(row) || row
            == last by {
            if rows.contains(row) {
                let i = choose|i: int| 0 <= i < rows.len() && rows[i] == row;
                assert(row != last ==> fewer[i] == row);
            }
            if fewer.contains(row) {
                let i = choose|i: int| 0 <= i < fewer.len() && fewer[i] == row;
                assert(rows[i] == row);
            }
        }
        if ahead {
            assert(some == earlier.push(last));
            assert forall|row: EventRow| #[trigger] some.contains(row) <==> earlier.contains(row)
                || row == last by {
                if some.contains(row) {
                    let i = choose|i: int| 0 <= i < some.len() && some[i] == row;
                    assert(row != last ==> earlier[i] == row);
                }
                if earlier.contains(row) {
                    let i = choose|i: int| 0 <= i < earlier.len() && earlier[i] == row;
                    assert(some[i] == row);
                }
                assert(some[some.len() - 1] == last);
            }
            assert forall|i: int| 0 <= i < earlier.len() implies (#[trigger] earlier[i]).id
                != last.id by {
                assert(earlier.contains(earlier[i]));
                let j = choose|j: int| 0 <= j < fewer.len() && fewer[j] == earlier[i];
                assert(rows[j] == earlier[i]);
            }
            assert(forall|i: int| 0 <= i < earlier.len() ==> #[trigger] some[i] == earlier[i]);
            assert forall|i: int| 0 <= i < some.len() implies shows_stored_event(
                t,
                (#[trigger] some[i]).id,
                found[i],
            ) by {
                if i < earlier.len() {
                    assert(before[i] == found[i]);
                    assert(some[i] == earlier[i]);
                }
            }
        }
    }
}

/// Listing the active events, when nothing fails: every event that `me` is still
/// in and whose day is over is closed, as completed if its people have accepted
/// it and else as canceled, and nothing else is different; the list shows the
/// events that `me` is still in, that lie ahead, and that all have accepted.
pub proof fn get_active_events_runs(
    n: nat,
    t: Tables,
    me: Id,
    today: Date,
    first: Step<GetActiveEvents, Vec<EventResponse>>,
    last: Running<GetActiveEvents>,
)
    requires
        t.keyed(),
        first.waits_at(GetActiveEvents::Parts { me, today }),
        first matches Step::Ask(m, request) && m.asking(request),
        runs(false, n, begun(first, t), last),
    ensures
        last.step matches Step::Done(r) ==> {
            let u = last.session.stored;
            &&& r matches Ok(found) && shows_list(
                t,
                active(t, me, today),
                Order::Unspecified,
                found@,
            )
            &&& u == (Tables { events: u.events, ..t })
            &&& u.events.dom() == t.events.dom()
            &&& forall|k: Id| #[trigger]
                t.events.dom().contains(k) ==> u.events[k] == if t.events[k].date.lt(today)
                    && still_in(t, me)(t.events[k]) {
                    EventRow { status: fate(t, k), ..t.events[k] }
                } else {
                    t.events[k]
                }
        },
{
    let kept = |r: Running<GetActiveEvents>| sweeping(t, me, today, r);
    assert forall|c: Running<GetActiveEvents>, reply: Reply, d: Running<GetActiveEvents>|
        kept(c) && #[trigger] exchange(false, c, reply, d) implies kept(d) by {
        sweeping_is_kept(t, me, today, c, reply, d);
    }
    runs_keep(false, n, begun(first, t), last, kept);
    if let Step::Done(Ok(found)) = last.step {
        let rows = choose|rows: Seq<EventRow>| #[trigger]
            dealt_with(t, me, today, rows, rows.len() as int, found@, last.session);
        assert(rows.take(rows.len() as int) == rows);
        listed_once(t, me, rows, 0);
        what_is_swept(t, today, rows);
        what_is_active(t, today, rows, found@);
        assert forall|k: Id| #[trigger] t.events.dom().contains(k) implies (rows.contains(
            t.events[k],
        ) <==> still_in(t, me)(t.events[k])) by {
            if rows.contains(t.events[k]) {
                let i = choose|i: int| 0 <= i < rows.len() && rows[i] == t.events[k];
                assert(still_in(t, me)(rows[i]));
            }
            if still_in(t, me)(t.events[k]) {
                let i = choose|i: int| 0 <= i < rows.len() && (#[trigger] rows[i]) == t.events[k];
                assert(rows.contains(rows[i]));
            }
        }
        let some = active_of(t, today, rows);
        assert(lists(t.events, active(t, me, today), some)) by {
            assert forall|i: int| 0 <= i < some.len() implies active(t, me, today)(
                #[trigger] some[i],
            ) by {
                assert(some.contains(some[i]));
                assert(t.events.dom().contains(some[i].id));
            }
            assert forall|k: Id| #[trigger]
                t.events.dom().contains(k) && active(t, me, today)(t.events[k]) implies exists|
                i: int,
            | 0 <= i < some.len() && (#[trigger] some[i]) == t.events[k] by {
                assert(some.contains(t.events[k]));
            }
        }
        assert(events_in_order(some, Order::Unspecified));
    }
}

} // verus!
