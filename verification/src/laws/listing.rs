//! What the lists of events show.

use crate::controllers::event_controller::list::{events_of, ListEvents, Listing};
use crate::controllers::event_controller::load::LoadEvents;
use crate::controllers::models::{EventResponse, EventScope};
use crate::entities::{EventRow, Id, UserEventRow};
use crate::laws::reading::{
    event_is_read, lists_alike, reading_changes_nothing, reading_event, shows_stored_event,
};
use crate::machine::{Machine, Step};
use crate::model::{
    begun, carried_out, events_in_order, exchange, lists, runs, runs_keep, through, Running,
    Session, Tables,
};
use crate::store::{Order, Reply, Request};
use crate::time::Date;
use vstd::prelude::*;

verus! {

/// Among the parts that pass is one in the event `id`.
pub open spec fn has_part(t: Tables, passes: spec_fn(UserEventRow) -> bool, id: Id) -> bool {
    exists|k: Id| #[trigger]
        t.user_events.dom().contains(k) && passes(t.user_events[k]) && t.user_events[k].event_id
            == id
}

/// The events in which the parts that pass are.
pub open spec fn part_ids(
    t: Tables,
    passes: spec_fn(UserEventRow) -> bool,
    ids: Seq<Id>,
) -> bool {
    forall|id: Id| #[trigger] ids.contains(id) <==> has_part(t, passes, id)
}

/// Each of the events `rows` is shown as it is stored.
pub open spec fn shows_each(t: Tables, rows: Seq<EventRow>, found: Seq<EventResponse>) -> bool {
    &&& found.len() == rows.len()
    &&& forall|i: int|
        0 <= i < rows.len() ==> shows_stored_event(t, (#[trigger] rows[i]).id, found[i])
}

/// `found` shows the events of `t` that pass, each once and in order.
pub open spec fn shows_list(
    t: Tables,
    passes: spec_fn(EventRow) -> bool,
    order: Order,
    found: Seq<EventResponse>,
) -> bool {
    exists|rows: Seq<EventRow>|
        {
            &&& lists(t.events, passes, rows)
            &&& events_in_order(rows, order)
            &&& #[trigger] shows_each(t, rows, found)
        }
}

/// `found` shows the events of a listing for `me`.
pub open spec fn shows_listing(
    t: Tables,
    me: Id,
    listing: Listing,
    found: Seq<EventResponse>,
) -> bool {
    exists|ids: Seq<Id>| #[trigger]
        part_ids(t, listing.parts(me), ids) && shows_list(
            t,
            listing.events(ids),
            listing.order(),
            found,
        )
}

/// The parts that are listed name the events in which the parts that pass are.
pub proof fn parts_name_events(
    t: Tables,
    passes: spec_fn(UserEventRow) -> bool,
    rows: Seq<UserEventRow>,
)
    requires
        t.keyed(),
        lists(t.user_events, passes, rows),
    ensures
        part_ids(t, passes, events_of(rows)),
{
    let ids = events_of(rows);
    assert forall|id: Id| #[trigger] ids.contains(id) <==> has_part(t, passes, id) by {
        if ids.contains(id) {
            let i = choose|i: int| 0 <= i < ids.len() && ids[i] == id;
            assert(rows[i].event_id == id);
            assert(t.user_events.dom().contains(rows[i].id));
        }
        if has_part(t, passes, id) {
            let k = choose|k: Id| #[trigger]
                t.user_events.dom().contains(k) && passes(t.user_events[k])
                    && t.user_events[k].event_id == id;
            let i = choose|i: int| 0 <= i < rows.len() && (#[trigger] rows[i]) == t.user_events[k];
            assert(ids[i] == id);
        }
    }
}

/// Events are being read from `t`, one after the other.
pub open spec fn reading_events(
    t: Tables,
    rows: Seq<EventRow>,
    load: LoadEvents,
    request: Request,
) -> bool {
    &&& load.ids@ == rows.map_values(|row: EventRow| row.id)
    &&& load.at < rows.len()
    &&& shows_each(t, rows.take(load.at as int), load.found@)
    &&& reading_event(t, rows[load.at as int].id, load.load, request)
}

/// Without a failure, stored events are read to the end.
pub proof fn events_are_read(
    t: Tables,
    rows: Seq<EventRow>,
    load: LoadEvents,
    request: Request,
    reply: Reply,
    step: Step<LoadEvents, Vec<EventResponse>>,
)
    requires
        t.keyed(),
        forall|i: int| 0 <= i < rows.len() ==> t.events.dom().contains((#[trigger] rows[i]).id),
        reading_events(t, rows, load, request),
        carried_out(t, request, reply, t),
        load.next(reply, step),
        step matches Step::Ask(m, request) ==> m.asking(request),
    ensures
        step matches Step::Ask(l, request) ==> reading_events(t, rows, l, request),
        step matches Step::Done(Ok(found)) ==> shows_each(t, rows, found@),
        !(step matches Step::Done(Err(_))),
{
    let at = load.at as int;
    let id = rows[at].id;
    match step {
        Step::Ask(m, q) if m.at == load.at => {
            event_is_read(t, id, load.load, request, reply, Step::Ask(m.load, q));
        },
        Step::Done(Err(why)) => {
            event_is_read(t, id, load.load, request, reply, Step::Done(Err(why)));
        },
        _ => {
            let shown = choose|shown: EventResponse|
                {
                    &&& #[trigger] load.load.next(reply, Step::Done(Ok(shown)))
                    &&& LoadEvents::goes_on(load.ids, at + 1, load.found@.push(shown), step)
                };
            event_is_read(t, id, load.load, request, reply, Step::Done(Ok(shown)));
            let more = rows.take(at + 1);
            let found = load.found@.push(shown);
            assert(shows_each(t, more, found)) by {
                assert forall|i: int| 0 <= i < more.len() implies shows_stored_event(
                    t,
                    (#[trigger] more[i]).id,
                    found[i],
                ) by {
                    if i < at {
                        assert(rows.take(at)[i] == more[i]);
                    }
                }
            }
            assert(load.ids@.len() == rows.len());
            if at + 1 == rows.len() {
                assert(more == rows);
            }
        },
    }
}

/// The events that pass, in order.
pub open spec fn ordered(t: Tables, passes: spec_fn(EventRow) -> bool, order: Order) -> spec_fn(
    Seq<EventRow>,
) -> bool {
    |rows: Seq<EventRow>| lists(t.events, passes, rows) && events_in_order(rows, order)
}

proof fn reading_begins(
    t: Tables,
    passes: spec_fn(EventRow) -> bool,
    order: Order,
    rows: Seq<EventRow>,
    b: Running<ListEvents>,
)
    requires
        t.keyed(),
        ordered(t, passes, order)(rows),
        ListEvents::reads(rows, b.step),
        b.step matches Step::Ask(m, request) ==> m.asking(request),
    ensures
        match b.step {
            Step::Ask(ListEvents::Loading(load), request) => reading_events(
                t,
                rows,
                load,
                request,
            ),
            Step::Ask(_, _) => false,
            Step::Done(Ok(found)) => shows_list(t, passes, order, found@),
            Step::Done(Err(_)) => false,
        },
{
    match b.step {
        Step::Ask(ListEvents::Loading(load), request) => {
            assert(load.ids@.len() == rows.len());
            assert(load.ids@[0] == rows[0].id);
            assert(shows_each(t, rows.take(0), load.found@));
        },
        Step::Done(Ok(found)) => {
            assert(shows_each(t, rows, found@));
        },
        _ => {},
    }
}

proof fn reading_goes_on(
    t: Tables,
    passes: spec_fn(EventRow) -> bool,
    order: Order,
    a: Running<ListEvents>,
    load: LoadEvents,
    rows: Seq<EventRow>,
    reply: Reply,
    b: Running<ListEvents>,
)
    requires
        t.keyed(),
        ordered(t, passes, order)(rows),
        a.step.waits_at(ListEvents::Loading(load)),
        a.session == Session::to(t),
        reading_events(t, rows, load, a.step->Ask_1),
        exchange(false, a, reply, b),
    ensures
        b.session == Session::to(t),
        match b.step {
            Step::Ask(ListEvents::Loading(l), request) => reading_events(t, rows, l, request),
            Step::Ask(_, _) => false,
            Step::Done(Ok(found)) => shows_list(t, passes, order, found@),
            Step::Done(Err(_)) => false,
        },
{
    let request = a.step->Ask_1;
    reading_changes_nothing(a.session, request, reply, b.session);
    let inner: Step<LoadEvents, Vec<EventResponse>> = match b.step {
        Step::Ask(ListEvents::Loading(l), q) => Step::Ask(l, q),
        Step::Done(x) => Step::Done(x),
        _ => arbitrary(),
    };
    events_are_read(t, rows, load, request, reply, inner);
}

/// What holds while the events that `me` created are listed.
pub open spec fn listing_created(t: Tables, me: Id, r: Running<ListEvents>) -> bool {
    let mine = |event: EventRow| event.creator_id == me;
    &&& r.session == Session::to(t)
    &&& match r.step {
        Step::Ask(m, request) => {
            &&& m.asking(request)
            &&& match m {
                ListEvents::Created { me: a } => a == me,
                ListEvents::Loading(load) => exists|rows: Seq<EventRow>| #[trigger]
                    reading_events(t, rows, load, request) && ordered(
                        t,
                        mine,
                        Order::Ascending,
                    )(rows),
                _ => false,
            }
        },
        Step::Done(Ok(found)) => shows_list(t, mine, Order::Ascending, found@),
        Step::Done(Err(_)) => false,
    }
}

proof fn listing_created_is_kept(
    t: Tables,
    me: Id,
    a: Running<ListEvents>,
    reply: Reply,
    b: Running<ListEvents>,
)
    requires
        t.keyed(),
        listing_created(t, me, a),
        exchange(false, a, reply, b),
    ensures
        listing_created(t, me, b),
{
    let mine = |event: EventRow| event.creator_id == me;
    let request = a.step->Ask_1;
    match a.step->Ask_0 {
        ListEvents::Created { me: _ } => {
            reading_changes_nothing(a.session, request, reply, b.session);
            let rows = reply->Events_0@;
            lists_alike(t.events, through(request->AllEvents_0), mine, rows);
            reading_begins(t, mine, Order::Ascending, rows, b);
        },
        ListEvents::Loading(load) => {
            let rows = choose|rows: Seq<EventRow>| #[trigger]
                reading_events(t, rows, load, request) && ordered(t, mine, Order::Ascending)(rows);
            reading_goes_on(t, mine, Order::Ascending, a, load, rows, reply, b);
        },
        _ => {},
    }
}

/// What holds while a listing is shown to `me`.
pub open spec fn listing_parts(
    t: Tables,
    me: Id,
    listing: Listing,
    r: Running<ListEvents>,
) -> bool {
    &&& r.session == Session::to(t)
    &&& match r.step {
        Step::Ask(m, request) => {
            &&& m.asking(request)
            &&& match m {
                ListEvents::Created { .. } => false,
                ListEvents::Parts { me: a, listing: l } => a == me && l == listing,
                ListEvents::Events { listing: l, among } => l == listing && part_ids(
                    t,
                    listing.parts(me),
                    among@,
                ),
                ListEvents::Loading(load) => exists|ids: Seq<Id>, rows: Seq<EventRow>|
                    {
                        &&& #[trigger] part_ids(t, listing.parts(me), ids)
                        &&& #[trigger] reading_events(t, rows, load, request)
                        &&& ordered(t, listing.events(ids), listing.order())(rows)
                    },
            }
        },
        Step::Done(Ok(found)) => shows_listing(t, me, listing, found@),
        Step::Done(Err(_)) => false,
    }
}

proof fn listing_parts_is_kept(
    t: Tables,
    me: Id,
    listing: Listing,
    a: Running<ListEvents>,
    reply: Reply,
    b: Running<ListEvents>,
)
    requires
        t.keyed(),
        listing_parts(t, me, listing, a),
        exchange(false, a, reply, b),
    ensures
        listing_parts(t, me, listing, b),
{
    let request = a.step->Ask_1;
    match a.step->Ask_0 {
        ListEvents::Parts { .. } => {
            reading_changes_nothing(a.session, request, reply, b.session);
            let rows = reply->UserEvents_0@;
            lists_alike(
                t.user_events,
                through(request->AllUserEvents_0),
                listing.parts(me),
                rows,
            );
            parts_name_events(t, listing.parts(me), rows);
            if rows.len() == 0 {
                let ids = events_of(rows);
                let none = Seq::<EventRow>::empty();
                assert(ids.len() == 0);
                assert(lists(t.events, listing.events(ids), none)) by {
                    assert forall|k: Id| #[trigger] t.events.dom().contains(k) implies
                        !listing.events(ids)(t.events[k]) by {
                        assert(!ids.contains(t.events[k].id));
                    }
                }
                assert(shows_each(t, none, b.step->Done_0->Ok_0@));
            }
        },
        ListEvents::Events { listing: _, among } => {
            reading_changes_nothing(a.session, request, reply, b.session);
            let rows = reply->Events_0@;
            lists_alike(t.events, through(request->AllEvents_0), listing.events(among@), rows);
            reading_begins(t, listing.events(among@), listing.order(), rows, b);
        },
        ListEvents::Loading(load) => {
            let (ids, rows) = choose|ids: Seq<Id>, rows: Seq<EventRow>|
                {
                    &&& #[trigger] part_ids(t, listing.parts(me), ids)
                    &&& #[trigger] reading_events(t, rows, load, request)
                    &&& ordered(t, listing.events(ids), listing.order())(rows)
                };
            reading_goes_on(t, listing.events(ids), listing.order(), a, load, rows, reply, b);
        },
        _ => {},
    }
}

/// A list of the events that `me` created shows all of them and no others, each
/// as it is stored, in the order of their days.
pub proof fn created_events_are_listed(
    n: nat,
    t: Tables,
    me: Id,
    today: Date,
    first: Step<ListEvents, Vec<EventResponse>>,
    last: Running<ListEvents>,
)
    requires
        t.keyed(),
        ListEvents::begun(me, EventScope::Created, today, first),
        first matches Step::Ask(m, request) && m.asking(request),
        runs(false, n, begun(first, t), last),
    ensures
        last.step matches Step::Done(r) ==> r matches Ok(found) && shows_list(
            t,
            |event: EventRow| event.creator_id == me,
            Order::Ascending,
            found@,
        ),
        last.session.stored == t,
{
    let kept = |r: Running<ListEvents>| listing_created(t, me, r);
    assert forall|c: Running<ListEvents>, reply: Reply, d: Running<ListEvents>|
        kept(c) && #[trigger] exchange(false, c, reply, d) implies kept(d) by {
        listing_created_is_kept(t, me, c, reply, d);
    }
    runs_keep(false, n, begun(first, t), last, kept);
}

/// A list of the events that `me` has a part in shows those that the listing
/// wants and no others, each as it is stored, in the order of their days.
pub proof fn wanted_events_are_listed(
    n: nat,
    t: Tables,
    me: Id,
    listing: Listing,
    first: Step<ListEvents, Vec<EventResponse>>,
    last: Running<ListEvents>,
)
    requires
        t.keyed(),
        first.waits_at(ListEvents::Parts { me, listing }),
        first matches Step::Ask(m, request) && m.asking(request),
        runs(false, n, begun(first, t), last),
    ensures
        last.step matches Step::Done(r) ==> r matches Ok(found) && shows_listing(
            t,
            me,
            listing,
            found@,
        ),
        last.session.stored == t,
{
    let kept = |r: Running<ListEvents>| listing_parts(t, me, listing, r);
    assert forall|c: Running<ListEvents>, reply: Reply, d: Running<ListEvents>|
        kept(c) && #[trigger] exchange(false, c, reply, d) implies kept(d) by {
        listing_parts_is_kept(t, me, listing, c, reply, d);
    }
    runs_keep(false, n, begun(first, t), last, kept);
}

/// The events that are shown, by their identifiers.
pub open spec fn ids_shown(found: Seq<EventResponse>) -> Seq<Id> {
    found.map_values(|shown: EventResponse| shown.id)
}

/// `me` takes part in an event.
pub open spec fn has_accepted(t: Tables, me: Id, id: Id) -> bool {
    exists|k: Id| #[trigger]
        t.user_events.dom().contains(k) && t.user_events[k].user_id == me
            && t.user_events[k].response_status is Accepted && t.user_events[k].event_id == id
}

/// A listing shows each of its events once, and no others.
pub proof fn what_is_listed(
    t: Tables,
    passes: spec_fn(EventRow) -> bool,
    order: Order,
    found: Seq<EventResponse>,
)
    requires
        t.keyed(),
        shows_list(t, passes, order, found),
    ensures
        ids_shown(found).no_duplicates(),
        forall|id: Id| #[trigger]
            ids_shown(found).contains(id) <==> t.events.dom().contains(id) && passes(t.events[id]),
{
    let ids = ids_shown(found);
    let rows = choose|rows: Seq<EventRow>|
        {
            &&& lists(t.events, passes, rows)
            &&& events_in_order(rows, order)
            &&& #[trigger] shows_each(t, rows, found)
        };
    assert forall|i: int| 0 <= i < ids.len() implies #[trigger] ids[i] == rows[i].id by {
        assert(shows_stored_event(t, rows[i].id, found[i]));
    }
    assert forall|id: Id| #[trigger]
        ids.contains(id) <==> t.events.dom().contains(id) && passes(t.events[id]) by {
        if ids.contains(id) {
            let i = choose|i: int| 0 <= i < ids.len() && ids[i] == id;
            assert(passes(rows[i]));
        }
        if t.events.dom().contains(id) && passes(t.events[id]) {
            let i = choose|i: int| 0 <= i < rows.len() && (#[trigger] rows[i]) == t.events[id];
            assert(ids[i] == id);
        }
    }
}

/// Two lists of events share no event, and hold each once: together, the events
/// that `me` takes part in, but for canceled ones on the day or later.
pub open spec fn splits_events(t: Tables, me: Id, today: Date, x: Seq<Id>, y: Seq<Id>) -> bool {
    &&& (x + y).no_duplicates()
    &&& forall|id: Id|
        x.contains(id) || y.contains(id) <==> {
            &&& #[trigger] t.events.dom().contains(id)
            &&& has_accepted(t, me, id)
            &&& !(t.events[id].status is Canceled && today.le(t.events[id].date))
        }
}

/// The lists of upcoming and of past events split the events of a user.
proof fn listings_split_events(
    t: Tables,
    me: Id,
    today: Date,
    upcoming: Seq<EventResponse>,
    past: Seq<EventResponse>,
)
    requires
        t.keyed(),
        shows_listing(t, me, Listing::Upcoming(today), upcoming),
        shows_listing(t, me, Listing::Past(today), past),
    ensures
        splits_events(t, me, today, ids_shown(upcoming), ids_shown(past)),
{
    let soon = Listing::Upcoming(today);
    let over = Listing::Past(today);
    let a = choose|ids: Seq<Id>| #[trigger]
        part_ids(t, soon.parts(me), ids) && shows_list(
            t,
            soon.events(ids),
            soon.order(),
            upcoming,
        );
    let b = choose|ids: Seq<Id>| #[trigger]
        part_ids(t, over.parts(me), ids) && shows_list(t, over.events(ids), over.order(), past);
    what_is_listed(t, soon.events(a), soon.order(), upcoming);
    what_is_listed(t, over.events(b), over.order(), past);
    let x = ids_shown(upcoming);
    let y = ids_shown(past);
    assert forall|id: Id|
        x.contains(id) || y.contains(id) <==> {
            &&& #[trigger] t.events.dom().contains(id)
            &&& has_accepted(t, me, id)
            &&& !(t.events[id].status is Canceled && today.le(t.events[id].date))
        } by {
        assert(a.contains(id) <==> has_part(t, soon.parts(me), id));
        assert(b.contains(id) <==> has_part(t, over.parts(me), id));
        assert(x.contains(id) <==> t.events.dom().contains(id) && soon.events(a)(t.events[id]));
        assert(y.contains(id) <==> t.events.dom().contains(id) && over.events(b)(t.events[id]));
    }
    let both = x + y;
    assert forall|i: int, j: int| 0 <= i < j < both.len() implies both[i] != both[j] by {
        if i < x.len() && x.len() <= j {
            assert(x.contains(x[i]) && y.contains(y[j - x.len()]));
        } else if j < x.len() {
            assert(x[i] != x[j]);
        } else {
            assert(y[i - x.len()] != y[j - x.len()]);
        }
    }
}

/// Asked on one day for the upcoming and for the past events, a user is shown no
/// event twice, and every event that the user takes part in, but for canceled ones
/// on that day or later.
pub proof fn upcoming_and_past_split_events(
    n: nat,
    k: nat,
    t: Tables,
    me: Id,
    today: Date,
    first: Step<ListEvents, Vec<EventResponse>>,
    last: Running<ListEvents>,
    past_first: Step<ListEvents, Vec<EventResponse>>,
    past_last: Running<ListEvents>,
)
    requires
        t.keyed(),
        ListEvents::begun(me, EventScope::Upcoming, today, first),
        first matches Step::Ask(m, request) && m.asking(request),
        runs(false, n, begun(first, t), last),
        last.step is Done,
        ListEvents::begun(me, EventScope::Past, today, past_first),
        past_first matches Step::Ask(m, request) && m.asking(request),
        runs(false, k, begun(past_first, t), past_last),
        past_last.step is Done,
    ensures
        match (last.step, past_last.step) {
            (Step::Done(Ok(upcoming)), Step::Done(Ok(past))) => splits_events(
                t,
                me,
                today,
                ids_shown(upcoming@),
                ids_shown(past@),
            ),
            _ => false,
        },
{
    wanted_events_are_listed(n, t, me, Listing::Upcoming(today), first, last);
    wanted_events_are_listed(k, t, me, Listing::Past(today), past_first, past_last);
    listings_split_events(
        t,
        me,
        today,
        last.step->Done_0->Ok_0@,
        past_last.step->Done_0->Ok_0@,
    );
}

} // verus!
