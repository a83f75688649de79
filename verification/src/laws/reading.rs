//! Reading changes nothing, and shows what is stored.

use crate::controllers::calendar_controller::{GetCalendar, IsBusy};
use crate::controllers::event_controller::availability::{
    CheckFriendsAvailability, CheckUserAvailability,
};
use crate::controllers::event_controller::list::ListEvents;
use crate::controllers::event_controller::load::{
    shows_event, shows_participant, LoadEvent, LoadParticipants,
};
use crate::controllers::event_controller::show::{GetEvent, GetEventParticipants};
use crate::controllers::friendship_controller::ListPeople;
use crate::controllers::models::{EventResponse, ParticipantResponse};
use crate::controllers::users_controller::{GetUser, SearchUsers};
use crate::controllers::wish_place_controller::GetWishPlaces;
use crate::entities::{Id, Row, UserEventRow, UserRow};
use crate::machine::{Machine, Step};
use crate::model::{
    answers, begun, carried_out, exchange, keyed, lists, parts_in_order, runs, runs_keep, through,
    Running, Session, Tables,
};
use crate::store::{Order, Reply, Request};
use vstd::prelude::*;

verus! {

/// The requests that only read.
pub open spec fn only_reads(request: Request) -> bool {
    ||| request is OneUser
    ||| request is OneFriendship
    ||| request is OneEvent
    ||| request is OneUserEvent
    ||| request is OneBusyday
    ||| request is OneWishPlace
    ||| request is AllUsers
    ||| request is AllFriendships
    ||| request is AllEvents
    ||| request is AllUserEvents
    ||| request is AllBusydays
    ||| request is AllWishPlaces
    ||| request is CountUserEvents
}

/// A request that only reads changes nothing.
pub proof fn reading_changes_nothing(s: Session, request: Request, reply: Reply, after: Session)
    requires
        only_reads(request),
        answers(s, request, reply, after),
    ensures
        after == s,
        !(reply is Fault) ==> carried_out(s.seen(), request, reply, s.seen()),
{
}

/// The people that are shown of the parts `rows` in an event: every part whose
/// user is known, in the order of `rows`.
pub open spec fn people_of(
    users: Map<Id, UserRow>,
    rows: Seq<UserEventRow>,
    people: Seq<ParticipantResponse>,
) -> bool
    decreases rows.len(),
{
    if rows.len() == 0 {
        people.len() == 0
    } else if users.dom().contains(rows.last().user_id) {
        &&& people.len() > 0
        &&& shows_participant(people.last(), rows.last(), users[rows.last().user_id])
        &&& people_of(users, rows.drop_last(), people.drop_last())
    } else {
        people_of(users, rows.drop_last(), people)
    }
}

/// The people in an event, as they are shown: its parts, in the order of the
/// users, each with what is known of its user.
pub open spec fn shows_people(t: Tables, event_id: Id, people: Seq<ParticipantResponse>) -> bool {
    exists|rows: Seq<UserEventRow>|
        {
            &&& lists(t.user_events, |row: UserEventRow| row.event_id == event_id, rows)
            &&& parts_in_order(rows, Order::Ascending)
            &&& #[trigger] people_of(t.users, rows, people)
        }
}

/// An event of the tables, as it is shown.
pub open spec fn shows_stored_event(t: Tables, id: Id, shown: EventResponse) -> bool {
    &&& t.events.dom().contains(id)
    &&& shows_event(shown, t.events[id], shown.participants)
    &&& shows_people(t, id, shown.participants@)
}

/// The people in an event are being read from `t`.
pub open spec fn reading_people(
    t: Tables,
    event_id: Id,
    load: LoadParticipants,
    request: Request,
) -> bool {
    &&& load.asking(request)
    &&& match load {
        LoadParticipants::Rows { event_id: e } => e == event_id,
        LoadParticipants::People { rows, at, found } => {
            &&& at < rows@.len()
            &&& lists(t.user_events, |row: UserEventRow| row.event_id == event_id, rows@)
            &&& parts_in_order(rows@, Order::Ascending)
            &&& people_of(t.users, rows@.take(at as int), found@)
        },
    }
}

/// An event is being read from `t`.
pub open spec fn reading_event(t: Tables, id: Id, load: LoadEvent, request: Request) -> bool {
    match load {
        LoadEvent::Event { id: i } => i == id && load.asking(request),
        LoadEvent::Participants { event, load: l } => {
            &&& t.events.dom().contains(id)
            &&& event == t.events[id]
            &&& reading_people(t, id, l, request)
        },
    }
}

/// Conditions that let through the same rows list the same rows.
pub proof fn lists_alike<R: Row>(
    table: Map<Id, R>,
    p: spec_fn(R) -> bool,
    q: spec_fn(R) -> bool,
    rows: Seq<R>,
)
    requires
        lists(table, p, rows),
        forall|row: R| #[trigger] p(row) == q(row),
    ensures
        lists(table, q, rows),
{
}

proof fn people_go_on(
    t: Tables,
    event_id: Id,
    rows: Vec<UserEventRow>,
    at: int,
    found: Seq<ParticipantResponse>,
    step: Step<LoadParticipants, Vec<ParticipantResponse>>,
)
    requires
        0 <= at <= rows@.len(),
        lists(t.user_events, |row: UserEventRow| row.event_id == event_id, rows@),
        parts_in_order(rows@, Order::Ascending),
        people_of(t.users, rows@.take(at), found),
        LoadParticipants::goes_on(rows, at, found, step),
        step matches Step::Ask(m, request) ==> m.asking(request),
    ensures
        step matches Step::Ask(l, request) ==> reading_people(t, event_id, l, request),
        step matches Step::Done(Ok(people)) ==> shows_people(t, event_id, people@),
        !(step matches Step::Done(Err(_))),
{
    if at == rows@.len() {
        assert(rows@.take(at) == rows@);
    }
}

/// Without a failure, the people in an event are read to the end.
pub proof fn people_are_read(
    t: Tables,
    event_id: Id,
    load: LoadParticipants,
    request: Request,
    reply: Reply,
    step: Step<LoadParticipants, Vec<ParticipantResponse>>,
)
    requires
        t.keyed(),
        reading_people(t, event_id, load, request),
        carried_out(t, request, reply, t),
        load.next(reply, step),
        step matches Step::Ask(m, request) ==> m.asking(request),
    ensures
        step matches Step::Ask(l, request) ==> reading_people(t, event_id, l, request),
        step matches Step::Done(Ok(people)) ==> shows_people(t, event_id, people@),
        !(step matches Step::Done(Err(_))),
{
    match load {
        LoadParticipants::Rows { event_id: e } => {
            let c = request->AllUserEvents_0;
            let rows = reply->UserEvents_0;
            lists_alike(
                t.user_events,
                through(c),
                |row: UserEventRow| row.event_id == event_id,
                rows@,
            );
            assert(people_of(t.users, rows@.take(0), Seq::<ParticipantResponse>::empty()));
            people_go_on(t, event_id, rows, 0, Seq::empty(), step);
        },
        LoadParticipants::People { rows, at, found } => {
            let row = rows@[at as int];
            let c = request->OneUser_0;
            assert(rows@.take(at + 1).drop_last() == rows@.take(at as int));
            assert(rows@.take(at + 1).last() == row);
            match reply {
                Reply::User(Some(user)) => {
                    assert(c.admits(user));
                    let p = choose|p: ParticipantResponse|
                        #![trigger shows_participant(p, rows@[at as int], user)]
                        {
                            &&& shows_participant(p, rows@[at as int], user)
                            &&& LoadParticipants::goes_on(rows, at + 1, found@.push(p), step)
                        };
                    assert(found@.push(p).drop_last() == found@);
                    people_go_on(t, event_id, rows, at + 1, found@.push(p), step);
                },
                Reply::User(None) => {
                    if t.users.dom().contains(row.user_id) {
                        assert(c.admits(t.users[row.user_id]));
                    }
                    people_go_on(t, event_id, rows, at + 1, found@, step);
                },
                _ => {},
            }
        },
    }
}

/// Without a failure, an event is read to the end, and shown as it is stored;
/// only one that does not exist is refused.
pub proof fn event_is_read(
    t: Tables,
    id: Id,
    load: LoadEvent,
    request: Request,
    reply: Reply,
    step: Step<LoadEvent, EventResponse>,
)
    requires
        t.keyed(),
        reading_event(t, id, load, request),
        carried_out(t, request, reply, t),
        load.next(reply, step),
        step matches Step::Ask(m, request) ==> m.asking(request),
    ensures
        step matches Step::Ask(l, request) ==> reading_event(t, id, l, request),
        step matches Step::Done(Ok(shown)) ==> shows_stored_event(t, id, shown),
        step matches Step::Done(Err(why)) ==> !t.events.dom().contains(id) && why is EventNotFound,
{
    match load {
        LoadEvent::Event { id: i } => {
            let c = request->OneEvent_0;
            match reply {
                Reply::Event(Some(event)) => {
                    assert(c.admits(event));
                },
                Reply::Event(None) => {
                    if t.events.dom().contains(id) {
                        assert(c.admits(t.events[id]));
                    }
                },
                _ => {},
            }
        },
        LoadEvent::Participants { event, load: l } => {
            let inner: Step<LoadParticipants, Vec<ParticipantResponse>> = match step {
                Step::Ask(LoadEvent::Participants { event: e, load: l2 }, r) => Step::Ask(l2, r),
                Step::Done(Ok(shown)) => Step::Done(Ok(shown.participants)),
                Step::Done(Err(why)) => Step::Done(Err(why)),
                _ => arbitrary(),
            };
            people_are_read(t, id, l, request, reply, inner);
        },
    }
}

/// A state of reading an event asks only to read.
pub proof fn reading_only_reads(load: LoadEvent, request: Request)
    requires
        load.asking(request),
    ensures
        only_reads(request),
{
}

/// Every question of this kind of request only reads.
pub open spec fn is_reader<M: Machine>() -> bool {
    forall|m: M, request: Request| #[trigger] m.asking(request) ==> only_reads(request)
}

/// A request whose questions only read leaves the tables as they are, whatever
/// fails on the way.
pub proof fn readers_change_nothing<M: Machine>(
    faults: bool,
    n: nat,
    t: Tables,
    first: Step<M, M::Out>,
    last: Running<M>,
)
    requires
        is_reader::<M>(),
        first matches Step::Ask(m, request) ==> m.asking(request),
        runs(faults, n, begun(first, t), last),
    ensures
        last.session == Session::to(t),
{
    let kept = |r: Running<M>|
        r.session == Session::to(t) && (r.step matches Step::Ask(m, request) ==> m.asking(
            request,
        ));
    assert forall|c: Running<M>, reply: Reply, d: Running<M>|
        kept(c) && #[trigger] exchange(faults, c, reply, d) implies kept(d) by {
        reading_changes_nothing(c.session, c.step->Ask_1, reply, d.session);
    }
    runs_keep(faults, n, begun(first, t), last, kept);
}

/// The requests that show or list something, or say who is free, only read. Of
/// the lists, that of the active events is none of them.
pub proof fn what_only_reads()
    ensures
        is_reader::<GetEvent>(),
        is_reader::<GetEventParticipants>(),
        is_reader::<ListEvents>(),
        is_reader::<CheckUserAvailability>(),
        is_reader::<CheckFriendsAvailability>(),
        is_reader::<GetCalendar>(),
        is_reader::<IsBusy>(),
        is_reader::<ListPeople>(),
        is_reader::<GetUser>(),
        is_reader::<SearchUsers>(),
        is_reader::<GetWishPlaces>(),
{
}

} // verus!
