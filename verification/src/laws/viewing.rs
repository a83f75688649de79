//! Who sees an event, and what they see.

use crate::controllers::event_controller::load::LoadParticipants;
use crate::controllers::event_controller::show::{
    part_of, EventAccess, GetEvent, GetEventParticipants,
};
use crate::controllers::models::{EventResponse, ParticipantResponse};
use crate::entities::{Id, UserEventRow, UserRow};
use crate::laws::consistency::no_part_twice;
use crate::laws::facts::event_found;
use crate::laws::reading::{
    event_is_read, lists_alike, people_are_read, people_of, reading_changes_nothing,
    reading_event, reading_people, shows_people, shows_stored_event,
};
use crate::laws::sequences::{filter_by_key, same_images, same_keys, same_members};
use crate::machine::{Machine, Step};
use crate::model::{
    begun, carried_out, exchange, lists, parts_in_order, runs, runs_keep, Running, Session, Tables,
};
use crate::refusal::Refusal;
use crate::store::{Order, Reply, Request};
use vstd::prelude::*;

verus! {

/// `me` has a part in an event.
pub open spec fn takes_part(t: Tables, me: Id, id: Id) -> bool {
    exists|k: Id| #[trigger]
        t.user_events.dom().contains(k) && part_of(id, me)(t.user_events[k])
}

/// Why `me` does not see an event, if that is so.
pub open spec fn refusal_to_show(t: Tables, me: Id, id: Id) -> Option<Refusal> {
    if !t.events.dom().contains(id) {
        Some(Refusal::EventMissing)
    } else if !takes_part(t, me, id) {
        Some(Refusal::EventForbidden)
    } else {
        None
    }
}

/// It is being found out whether `me` sees an event.
pub open spec fn at_the_door(
    t: Tables,
    me: Id,
    id: Id,
    access: EventAccess,
    request: Request,
) -> bool {
    &&& access.asking(request)
    &&& match access {
        EventAccess::Event { event_id, user_id } => event_id == id && user_id == me,
        EventAccess::Part { event_id, user_id } => event_id == id && user_id == me
            && t.events.dom().contains(id),
    }
}

/// Without a failure, those who have a part in an event are let in, and nobody
/// else.
proof fn the_door_opens(
    t: Tables,
    me: Id,
    id: Id,
    access: EventAccess,
    request: Request,
    reply: Reply,
    step: Step<EventAccess, ()>,
)
    requires
        t.keyed(),
        at_the_door(t, me, id, access, request),
        carried_out(t, request, reply, t),
        access.next(reply, step),
        step matches Step::Ask(m, request) ==> m.asking(request),
    ensures
        step matches Step::Ask(a, request) ==> at_the_door(t, me, id, a, request),
        step matches Step::Done(Ok(_)) ==> refusal_to_show(t, me, id) is None,
        step matches Step::Done(Err(why)) ==> refusal_to_show(t, me, id) == Some(why),
{
    match access {
        EventAccess::Event { .. } => {
            event_found(t, request->OneEvent_0, reply->Event_0, id);
        },
        EventAccess::Part { .. } => {
            let c = request->OneUserEvent_0;
            match reply {
                Reply::UserEvent(Some(row)) => {
                    assert(c.admits(row));
                },
                Reply::UserEvent(None) => {
                    assert forall|k: Id| #[trigger] t.user_events.dom().contains(k) implies
                        !part_of(id, me)(t.user_events[k]) by {
                        assert(!c.admits(t.user_events[k]));
                    }
                },
                _ => {},
            }
        },
    }
}

/// What holds while an event is shown.
pub open spec fn showing(t: Tables, me: Id, id: Id, r: Running<GetEvent>) -> bool {
    &&& r.session == Session::to(t)
    &&& match r.step {
        Step::Ask(GetEvent::Access { id: i, access }, request) => i == id && at_the_door(
            t,
            me,
            id,
            access,
            request,
        ),
        Step::Ask(GetEvent::Loading(load), request) => refusal_to_show(t, me, id) is None
            && reading_event(t, id, load, request),
        Step::Done(Ok(shown)) => refusal_to_show(t, me, id) is None && shows_stored_event(
            t,
            id,
            shown,
        ),
        Step::Done(Err(why)) => refusal_to_show(t, me, id) == Some(why),
    }
}

proof fn showing_is_kept(
    t: Tables,
    me: Id,
    id: Id,
    a: Running<GetEvent>,
    reply: Reply,
    b: Running<GetEvent>,
)
    requires
        t.keyed(),
        showing(t, me, id, a),
        exchange(false, a, reply, b),
    ensures
        showing(t, me, id, b),
{
    let request = a.step->Ask_1;
    assert(a.step->Ask_0.asking(request)) by {
        if a.step->Ask_0 is Loading {
            let load = a.step->Ask_0->Loading_0;
            assert(load.asking(request));
        }
    }
    reading_changes_nothing(a.session, request, reply, b.session);
    match a.step->Ask_0 {
        GetEvent::Access { id: _, access } => {
            let inner: Step<EventAccess, ()> = match b.step {
                Step::Ask(GetEvent::Access { id: _, access: x }, q) => Step::Ask(x, q),
                Step::Done(Err(why)) => Step::Done(Err(why)),
                _ => Step::Done(Ok(())),
            };
            the_door_opens(t, me, id, access, request, reply, inner);
        },
        GetEvent::Loading(load) => {
            match b.step {
                Step::Ask(GetEvent::Loading(l), q) => {
                    event_is_read(t, id, load, request, reply, Step::Ask(l, q));
                },
                Step::Done(Ok(shown)) => {
                    event_is_read(t, id, load, request, reply, Step::Done(Ok(shown)));
                },
                Step::Done(Err(_)) => {
                    let e = choose|e: Refusal| #[trigger] load.next(reply, Step::Done(Err(e)));
                    event_is_read(t, id, load, request, reply, Step::Done(Err(e)));
                },
                _ => {},
            }
        },
    }
}

/// Those who have a part in an event see it as it is stored. Others are refused,
/// and so is everybody where there is no event.
pub proof fn get_event_runs(
    n: nat,
    t: Tables,
    me: Id,
    id: Id,
    first: Step<GetEvent, EventResponse>,
    last: Running<GetEvent>,
)
    requires
        t.keyed(),
        first.waits_at(
            GetEvent::Access { id, access: EventAccess::Event { event_id: id, user_id: me } },
        ),
        first matches Step::Ask(m, request) && m.asking(request),
        runs(false, n, begun(first, t), last),
    ensures
        last.step matches Step::Done(Ok(shown)) ==> {
            &&& refusal_to_show(t, me, id) is None
            &&& shows_stored_event(t, id, shown)
        },
        last.step matches Step::Done(Err(why)) ==> refusal_to_show(t, me, id) == Some(why),
        last.session.stored == t,
{
    let kept = |r: Running<GetEvent>| showing(t, me, id, r);
    assert forall|c: Running<GetEvent>, reply: Reply, d: Running<GetEvent>|
        kept(c) && #[trigger] exchange(false, c, reply, d) implies kept(d) by {
        showing_is_kept(t, me, id, c, reply, d);
    }
    runs_keep(false, n, begun(first, t), last, kept);
}

/// What holds while the people in an event are shown.
pub open spec fn showing_people(
    t: Tables,
    me: Id,
    id: Id,
    r: Running<GetEventParticipants>,
) -> bool {
    &&& r.session == Session::to(t)
    &&& match r.step {
        Step::Ask(GetEventParticipants::Access { id: i, access }, request) => i == id
            && at_the_door(t, me, id, access, request),
        Step::Ask(GetEventParticipants::Loading(load), request) => refusal_to_show(t, me, id)
            is None && reading_people(t, id, load, request),
        Step::Done(Ok(people)) => refusal_to_show(t, me, id) is None && shows_people(
            t,
            id,
            people@,
        ),
        Step::Done(Err(why)) => refusal_to_show(t, me, id) == Some(why),
    }
}

proof fn showing_people_is_kept(
    t: Tables,
    me: Id,
    id: Id,
    a: Running<GetEventParticipants>,
    reply: Reply,
    b: Running<GetEventParticipants>,
)
    requires
        t.keyed(),
        showing_people(t, me, id, a),
        exchange(false, a, reply, b),
    ensures
        showing_people(t, me, id, b),
{
    let request = a.step->Ask_1;
    reading_changes_nothing(a.session, request, reply, b.session);
    match a.step->Ask_0 {
        GetEventParticipants::Access { id: _, access } => {
            let inner: Step<EventAccess, ()> = match b.step {
                Step::Ask(GetEventParticipants::Access { id: _, access: x }, q) => Step::Ask(x, q),
                Step::Done(Err(why)) => Step::Done(Err(why)),
                _ => Step::Done(Ok(())),
            };
            the_door_opens(t, me, id, access, request, reply, inner);
        },
        GetEventParticipants::Loading(load) => {
            let inner: Step<LoadParticipants, Vec<ParticipantResponse>> = match b.step {
                Step::Ask(GetEventParticipants::Loading(l), q) => Step::Ask(l, q),
                Step::Done(x) => Step::Done(x),
                _ => arbitrary(),
            };
            people_are_read(t, id, load, request, reply, inner);
        },
    }
}

/// Those who have a part in an event see the people in it. Others are refused,
/// and so is everybody where there is no event.
pub proof fn get_event_participants_runs(
    n: nat,
    t: Tables,
    me: Id,
    id: Id,
    first: Step<GetEventParticipants, Vec<ParticipantResponse>>,
    last: Running<GetEventParticipants>,
)
    requires
        t.keyed(),
        first.waits_at(
            GetEventParticipants::Access {
                id,
                access: EventAccess::Event { event_id: id, user_id: me },
            },
        ),
        first matches Step::Ask(m, request) && m.asking(request),
        runs(false, n, begun(first, t), last),
    ensures
        last.step matches Step::Done(Ok(people)) ==> {
            &&& refusal_to_show(t, me, id) is None
            &&& shows_people(t, id, people@)
        },
        last.step matches Step::Done(Err(why)) ==> refusal_to_show(t, me, id) == Some(why),
        last.session.stored == t,
{
    let kept = |r: Running<GetEventParticipants>| showing_people(t, me, id, r);
    assert forall|c: Running<GetEventParticipants>, reply: Reply, d: Running<GetEventParticipants>|
        kept(c) && #[trigger] exchange(false, c, reply, d) implies kept(d) by {
        showing_people_is_kept(t, me, id, c, reply, d);
    }
    runs_keep(false, n, begun(first, t), last, kept);
}

/// What is said of somebody in an event.
pub open spec fn said_of(p: ParticipantResponse) -> (
    Id,
    String,
    Option<String>,
    Option<String>,
    Seq<char>,
    Seq<char>,
) {
    (p.user_id, p.username, p.avatar_url, p.bio, p.role@, p.response_status@)
}

/// What there is to say of the user who has a part in an event.
pub open spec fn known_of(users: Map<Id, UserRow>, row: UserEventRow) -> (
    Id,
    String,
    Option<String>,
    Option<String>,
    Seq<char>,
    Seq<char>,
) {
    let user = users[row.user_id];
    (
        row.user_id,
        user.username,
        user.avatar_url,
        user.bio,
        row.role.text(),
        row.response_status.text(),
    )
}

/// The same people, with the same said of them: only the order of several parts of
/// one user may differ.
pub open spec fn same_people(
    a: Seq<ParticipantResponse>,
    b: Seq<ParticipantResponse>,
) -> bool {
    let user_of = |p: ParticipantResponse| p.user_id;
    let said = |p: ParticipantResponse| said_of(p);
    &&& a.map_values(user_of) == b.map_values(user_of)
    &&& a.map_values(said).to_multiset() == b.map_values(said).to_multiset()
}

/// The people that are shown are the parts whose users are known.
proof fn people_of_parts(
    users: Map<Id, UserRow>,
    rows: Seq<UserEventRow>,
    people: Seq<ParticipantResponse>,
)
    requires
        people_of(users, rows, people),
    ensures
        people.map_values(|p: ParticipantResponse| said_of(p)) == rows.filter(
            |row: UserEventRow| users.dom().contains(row.user_id),
        ).map_values(|row: UserEventRow| known_of(users, row)),
    decreases rows.len(),
{
    reveal(Seq::filter);
    let said = |p: ParticipantResponse| said_of(p);
    let known = |row: UserEventRow| users.dom().contains(row.user_id);
    let known_as = |row: UserEventRow| known_of(users, row);
    if rows.len() > 0 {
        let fewer = rows.drop_last();
        let last = rows.last();
        if known(last) {
            people_of_parts(users, fewer, people.drop_last());
            assert(people =~= people.drop_last().push(people.last()));
            assert(people.map_values(said) =~= people.drop_last().map_values(said).push(
                said_of(people.last()),
            ));
            assert(fewer.filter(known).push(last).map_values(known_as) =~= fewer.filter(
                known,
            ).map_values(known_as).push(known_as(last)));
        } else {
            people_of_parts(users, fewer, people);
        }
    } else {
        assert(people.map_values(said) =~= rows.filter(known).map_values(known_as));
    }
}

/// The people in an event are the same whoever asks for them. If nobody has two
/// parts in one event, they come in the same order too.
pub proof fn people_agree(
    t: Tables,
    id: Id,
    a: Seq<ParticipantResponse>,
    b: Seq<ParticipantResponse>,
)
    requires
        t.keyed(),
        shows_people(t, id, a),
        shows_people(t, id, b),
    ensures
        same_people(a, b),
        no_part_twice(t.user_events) ==> a.map_values(|p: ParticipantResponse| said_of(p))
            == b.map_values(|p: ParticipantResponse| said_of(p)),
{
    let of_event = |row: UserEventRow| row.event_id == id;
    let x = choose|rows: Seq<UserEventRow>|
        {
            &&& lists(t.user_events, |row: UserEventRow| row.event_id == id, rows)
            &&& parts_in_order(rows, Order::Ascending)
            &&& #[trigger] people_of(t.users, rows, a)
        };
    let y = choose|rows: Seq<UserEventRow>|
        {
            &&& lists(t.user_events, |row: UserEventRow| row.event_id == id, rows)
            &&& parts_in_order(rows, Order::Ascending)
            &&& #[trigger] people_of(t.users, rows, b)
        };
    lists_alike(t.user_events, |row: UserEventRow| row.event_id == id, of_event, x);
    lists_alike(t.user_events, |row: UserEventRow| row.event_id == id, of_event, y);
    assert forall|row: UserEventRow| #[trigger] x.contains(row) <==> y.contains(row) by {
        if x.contains(row) {
            assert(of_event(row) && t.user_events.dom().contains(row.id));
            assert(t.user_events[row.id] == row);
            let i = choose|i: int| 0 <= i < y.len() && (#[trigger] y[i]) == t.user_events[row.id];
        }
        if y.contains(row) {
            assert(of_event(row) && t.user_events.dom().contains(row.id));
            assert(t.user_events[row.id] == row);
            let i = choose|i: int| 0 <= i < x.len() && (#[trigger] x[i]) == t.user_events[row.id];
        }
    }
    assert(x.no_duplicates());
    assert(y.no_duplicates());
    let user_in = |row: UserEventRow| row.user_id;
    same_keys(x, y, user_in, |v: Id, w: Id| v <= w);
    same_members(x, y);
    let known = |row: UserEventRow| t.users.dom().contains(row.user_id);
    let known_as = |row: UserEventRow| known_of(t.users, row);
    let said = |p: ParticipantResponse| said_of(p);
    let user_of = |p: ParticipantResponse| p.user_id;
    same_images(x, y, known, known_as);
    people_of_parts(t.users, x, a);
    people_of_parts(t.users, y, b);
    filter_by_key(x, known, user_in, |user: Id| t.users.dom().contains(user));
    filter_by_key(y, known, user_in, |user: Id| t.users.dom().contains(user));
    assert forall|p: Seq<ParticipantResponse>, rows: Seq<UserEventRow>|
        #[trigger] p.map_values(said) == #[trigger] rows.filter(known).map_values(
            known_as,
        ) implies p.map_values(user_of) == rows.filter(known).map_values(user_in) by {
        let kept = rows.filter(known);
        assert(p.map_values(said).len() == kept.map_values(known_as).len());
        assert forall|i: int| 0 <= i < p.len() implies p[i].user_id == kept[i].user_id by {
            assert(p.map_values(said)[i] == kept.map_values(known_as)[i]);
        }
        assert(p.map_values(user_of) =~= kept.map_values(user_in));
    }
    assert(a.map_values(user_of) == x.filter(known).map_values(user_in));
    assert(b.map_values(user_of) == y.filter(known).map_values(user_in));
    if no_part_twice(t.user_events) {
        assert(x.map_values(user_in).len() == y.map_values(user_in).len());
        assert forall|i: int| 0 <= i < x.len() implies x[i] == y[i] by {
            assert(x.map_values(user_in)[i] == y.map_values(user_in)[i]);
            assert(of_event(x[i]) && of_event(y[i]));
            assert(t.user_events.dom().contains(x[i].id) && t.user_events.dom().contains(y[i].id));
        }
        assert(x =~= y);
    }
}

/// Whoever asks for an event and for the people in it is shown the same people, or
/// is refused both for the same reason.
pub proof fn event_and_its_people_agree(
    n: nat,
    k: nat,
    t: Tables,
    me: Id,
    id: Id,
    first: Step<GetEvent, EventResponse>,
    last: Running<GetEvent>,
    people_first: Step<GetEventParticipants, Vec<ParticipantResponse>>,
    people_last: Running<GetEventParticipants>,
)
    requires
        t.keyed(),
        first.waits_at(
            GetEvent::Access { id, access: EventAccess::Event { event_id: id, user_id: me } },
        ),
        first matches Step::Ask(m, request) && m.asking(request),
        runs(false, n, begun(first, t), last),
        last.step is Done,
        people_first.waits_at(
            GetEventParticipants::Access {
                id,
                access: EventAccess::Event { event_id: id, user_id: me },
            },
        ),
        people_first matches Step::Ask(m, request) && m.asking(request),
        runs(false, k, begun(people_first, t), people_last),
        people_last.step is Done,
    ensures
        match (last.step, people_last.step) {
            (Step::Done(Ok(shown)), Step::Done(Ok(people))) => {
                &&& same_people(shown.participants@, people@)
                &&& no_part_twice(t.user_events) ==> shown.participants@.map_values(
                    |p: ParticipantResponse| said_of(p),
                ) == people@.map_values(|p: ParticipantResponse| said_of(p))
            },
            (Step::Done(Err(why)), Step::Done(Err(other))) => why == other,
            _ => false,
        },
{
    get_event_runs(n, t, me, id, first, last);
    get_event_participants_runs(k, t, me, id, people_first, people_last);
    if last.step->Done_0 is Ok && people_last.step->Done_0 is Ok {
        let shown = last.step->Done_0->Ok_0;
        people_agree(t, id, shown.participants@, people_last.step->Done_0->Ok_0@);
    }
}

} // verus!
