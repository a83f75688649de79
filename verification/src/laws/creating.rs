//! What making an event does.

use crate::controllers::dates::named_day;
use crate::controllers::event_controller::create::{
    ascending, guest_list, invitations, CreateEvent, EventDraft,
};
use crate::controllers::event_controller::load::LoadEvent;
use crate::controllers::models::{CreateEventBody, EventResponse};
use crate::entities::{BusydayRow, EventRow, Id, UserEventRow};
use crate::laws::consistency::{
    accepts, confirmations_are_reserved, consistent, days_are_backed, no_day_twice, no_part_twice,
    holds_day, owners_are_reserved, reserves,
};
use crate::laws::facts::{are_friends, busy_found, friend_found, is_taken};
use crate::laws::reading::{
    event_is_read, reading_changes_nothing, reading_event, reading_only_reads, shows_stored_event,
};
use crate::machine::{Machine, Step};
use crate::model::{
    begun, exchange, gains, gains_parts, gains_parts_at, keyed, runs, runs_keep, Running, Session,
    Tables,
};
use crate::refusal::{Refusal, StatusCode};
use crate::store::Reply;
use crate::text::blank;
use vstd::prelude::*;

verus! {

/// `id` is a guest of the event that `me` wants to make.
pub open spec fn is_guest(body: CreateEventBody, me: Id, id: Id) -> bool {
    body.participant_ids@.contains(id) && id != me
}

/// The event that a client describes.
pub open spec fn describes(body: CreateEventBody, draft: EventDraft) -> bool {
    &&& named_day(body.date@) == Some(draft.date.ymd())
    &&& draft.title == body.title
    &&& draft.description == body.description
    &&& draft.location == body.location
    &&& draft.wish_place_id == body.wish_place_id
}

/// Why `me` cannot make an event, if that is so.
pub open spec fn creation_refusal(t: Tables, me: Id, body: CreateEventBody) -> Option<Refusal> {
    match named_day(body.date@) {
        None => Some(Refusal::InvalidDate),
        Some(day) => if blank(body.title@) {
            Some(Refusal::EventTitleMissing)
        } else if exists|id: Id| #[trigger] is_guest(body, me, id) && !are_friends(t, me, id) {
            Some(Refusal::GuestNotFriend)
        } else if is_taken(t, me, day) {
            Some(Refusal::DayReserved)
        } else if exists|id: Id| #[trigger] is_guest(body, me, id) && is_taken(t, id, day) {
            Some(Refusal::GuestBusy)
        } else {
            None
        },
    }
}

/// `row` is the event that a client describes, newly made.
pub open spec fn new_event(body: CreateEventBody, me: Id, row: EventRow) -> bool {
    &&& row.creator_id == me
    &&& named_day(body.date@) == Some(row.date.ymd())
    &&& row.title == body.title
    &&& row.description == body.description
    &&& row.location == body.location
    &&& row.status is Pending
    &&& row.wish_place_id == body.wish_place_id
    &&& row.memory_image_base64 is None
}

/// The owner's part in an event.
pub open spec fn owner_part(event: Id, me: Id, row: UserEventRow) -> bool {
    &&& row.event_id == event
    &&& row.user_id == me
    &&& row.role is Owner
    &&& row.response_status is Accepted
}

/// The tables once the event is in them.
pub open spec fn with_event(t: Tables, event: EventRow) -> Tables {
    Tables { events: t.events.insert(event.id, event), ..t }
}

/// The tables once the event and its owner's part are in them.
pub open spec fn with_owner(t: Tables, event: EventRow, owner: UserEventRow) -> Tables {
    Tables { user_events: t.user_events.insert(owner.id, owner), ..with_event(t, event) }
}

/// The tables once the event and its owner's part and busy day are in them.
pub open spec fn with_day(
    t: Tables,
    event: EventRow,
    owner: UserEventRow,
    day: BusydayRow,
) -> Tables {
    Tables { busydays: t.busydays.insert(day.id, day), ..with_owner(t, event, owner) }
}

/// The rows that belong to the owner of a new event.
pub open spec fn new_rows(
    t: Tables,
    body: CreateEventBody,
    me: Id,
    event: EventRow,
    owner: UserEventRow,
    day: BusydayRow,
) -> bool {
    &&& new_event(body, me, event)
    &&& !t.events.dom().contains(event.id)
    &&& owner_part(event.id, me, owner)
    &&& !t.user_events.dom().contains(owner.id)
    &&& day.user_id == me
    &&& day.date == event.date
    &&& day.event_id == Some(event.id)
    &&& !t.busydays.dom().contains(day.id)
}

/// Nothing stands in the way of the event: the guests are friends, and nobody's
/// day is taken.
pub open spec fn unhindered(t: Tables, me: Id, body: CreateEventBody, guests: Seq<Id>) -> bool {
    &&& named_day(body.date@) is Some
    &&& !blank(body.title@)
    &&& guest_list(body.participant_ids@, me, guests)
    &&& forall|i: int| 0 <= i < guests.len() ==> are_friends(t, me, #[trigger] guests[i])
    &&& !is_taken(t, me, named_day(body.date@)->0)
    &&& forall|i: int|
        0 <= i < guests.len() ==> !is_taken(t, #[trigger] guests[i], named_day(body.date@)->0)
}

/// The tables once `me` has made an event: the event is pending; `me` is its
/// owner, has accepted it, and is taken on its day; every guest has an
/// invitation that waits for an answer. Nothing else is different.
pub open spec fn made_at(
    t: Tables,
    u: Tables,
    me: Id,
    body: CreateEventBody,
    guests: Seq<Id>,
    event: EventRow,
    owner: UserEventRow,
    day: BusydayRow,
) -> bool {
    let w = with_day(t, event, owner, day);
    &&& unhindered(t, me, body, guests)
    &&& new_rows(t, body, me, event, owner, day)
    &&& gains_parts(w.user_events, invitations(event.id, guests), u.user_events)
    &&& u == (Tables { user_events: u.user_events, ..w })
}

pub open spec fn made(t: Tables, u: Tables, me: Id, body: CreateEventBody, event_id: Id) -> bool {
    exists|guests: Seq<Id>, event: EventRow, owner: UserEventRow, day: BusydayRow|
        event.id == event_id && #[trigger] made_at(t, u, me, body, guests, event, owner, day)
}

/// The owner's rows are in the tables of the transaction.
pub open spec fn owned(
    t: Tables,
    me: Id,
    body: CreateEventBody,
    guests: Seq<Id>,
    event_id: Id,
    s: Session,
) -> bool {
    exists|event: EventRow, owner: UserEventRow, day: BusydayRow|
        {
            &&& event.id == event_id
            &&& unhindered(t, me, body, guests)
            &&& #[trigger] new_rows(t, body, me, event, owner, day)
            &&& s == (Session {
                stored: t,
                open: Some(with_day(t, event, owner, day)),
            })
        }
}

/// What holds while `me` makes an event, from the tables `t`.
pub open spec fn creating(
    faults: bool,
    t: Tables,
    me: Id,
    body: CreateEventBody,
    r: Running<CreateEvent>,
) -> bool {
    let tx = Session { stored: t, open: Some(t) };
    match r.step {
        Step::Ask(m, request) => {
            &&& m.asking(request)
            &&& match m {
                CreateEvent::Friend { me: a, draft, guests, at } => {
                    &&& a == me && describes(body, draft) && !blank(body.title@)
                    &&& guest_list(body.participant_ids@, me, guests@)
                    &&& r.session == Session::to(t)
                    &&& forall|i: int|
                        0 <= i < at ==> are_friends(t, me, #[trigger] guests@[i])
                },
                CreateEvent::Begin { me: a, draft, guests } => {
                    &&& a == me && describes(body, draft) && !blank(body.title@)
                    &&& guest_list(body.participant_ids@, me, guests@)
                    &&& r.session == Session::to(t)
                    &&& forall|i: int|
                        0 <= i < guests@.len() ==> are_friends(t, me, #[trigger] guests@[i])
                },
                CreateEvent::OwnDay { me: a, draft, guests } => {
                    &&& a == me && describes(body, draft) && !blank(body.title@)
                    &&& guest_list(body.participant_ids@, me, guests@)
                    &&& r.session == tx
                    &&& forall|i: int|
                        0 <= i < guests@.len() ==> are_friends(t, me, #[trigger] guests@[i])
                },
                CreateEvent::GuestDay { me: a, draft, guests, at } => {
                    &&& a == me && describes(body, draft) && !blank(body.title@)
                    &&& guest_list(body.participant_ids@, me, guests@)
                    &&& r.session == tx
                    &&& forall|i: int|
                        0 <= i < guests@.len() ==> are_friends(t, me, #[trigger] guests@[i])
                    &&& !is_taken(t, me, draft.date.ymd())
                    &&& forall|i: int|
                        0 <= i < at ==> !is_taken(t, #[trigger] guests@[i], draft.date.ymd())
                },
                CreateEvent::Event { me: a, date, guests, of } => {
                    &&& a == me && describes(body, of@) && date == of@.date
                    &&& unhindered(t, me, body, guests@)
                    &&& r.session == tx
                },
                CreateEvent::Owner { me: a, date, guests, event_id } => {
                    &&& a == me
                    &&& unhindered(t, me, body, guests@)
                    &&& exists|event: EventRow|
                        {
                            &&& #[trigger] new_event(body, me, event)
                            &&& event.id == event_id && event.date == date
                            &&& !t.events.dom().contains(event_id)
                            &&& r.session == (Session {
                                stored: t,
                                open: Some(with_event(t, event)),
                            })
                        }
                },
                CreateEvent::Reservation { me: a, date, guests, event_id } => {
                    &&& a == me
                    &&& unhindered(t, me, body, guests@)
                    &&& exists|event: EventRow, owner: UserEventRow|
                        {
                            &&& #[trigger] new_event(body, me, event)
                            &&& event.id == event_id && event.date == date
                            &&& !t.events.dom().contains(event_id)
                            &&& #[trigger] owner_part(event_id, me, owner)
                            &&& !t.user_events.dom().contains(owner.id)
                            &&& r.session == (Session {
                                stored: t,
                                open: Some(with_owner(t, event, owner)),
                            })
                        }
                },
                CreateEvent::Invitations { event_id, invited } => owned(
                    t,
                    me,
                    body,
                    invited@,
                    event_id,
                    r.session,
                ),
                CreateEvent::Commit { event_id } => {
                    &&& r.session.stored == t && r.session.open is Some
                    &&& made(t, r.session.seen(), me, body, event_id)
                },
                CreateEvent::Loading(load) => {
                    &&& r.session.open is None
                    &&& exists|event_id: Id|
                        {
                            &&& #[trigger] made(t, r.session.stored, me, body, event_id)
                            &&& !faults ==> reading_event(
                                r.session.stored,
                                event_id,
                                load,
                                request,
                            )
                        }
                },
            }
        },
        Step::Done(Ok(reply)) => {
            &&& reply.0 is Created
            &&& exists|event_id: Id|
                {
                    &&& #[trigger] made(t, r.session.stored, me, body, event_id)
                    &&& !faults ==> shows_stored_event(r.session.stored, event_id, reply.1)
                }
            &&& creation_refusal(t, me, body) is None
        },
        Step::Done(Err(why)) => if faults {
            ||| r.session.stored == t
            ||| exists|event_id: Id| #[trigger] made(t, r.session.stored, me, body, event_id)
        } else {
            r.session.stored == t && creation_refusal(t, me, body) == Some(why)
        },
    }
}

proof fn unhindered_is_not_refused(t: Tables, me: Id, body: CreateEventBody, guests: Seq<Id>)
    requires
        unhindered(t, me, body, guests),
    ensures
        creation_refusal(t, me, body) is None,
{
    assert forall|id: Id| #[trigger] is_guest(body, me, id) implies are_friends(t, me, id)
        && !is_taken(t, id, named_day(body.date@)->0) by {
        assert(guests.contains(id));
        let i = choose|i: int| 0 <= i < guests.len() && guests[i] == id;
        assert(are_friends(t, me, guests[i]));
    }
}

proof fn guest_is_guest(body: CreateEventBody, me: Id, guests: Seq<Id>, at: int)
    requires
        guest_list(body.participant_ids@, me, guests),
        0 <= at < guests.len(),
    ensures
        is_guest(body, me, guests[at]),
{
    assert(guests.contains(guests[at]));
}

/// If those on the guest list are friends, all guests are.
proof fn guests_are_friends(t: Tables, me: Id, body: CreateEventBody, guests: Seq<Id>)
    requires
        guest_list(body.participant_ids@, me, guests),
        forall|i: int| 0 <= i < guests.len() ==> are_friends(t, me, #[trigger] guests[i]),
    ensures
        forall|id: Id| #[trigger] is_guest(body, me, id) ==> are_friends(t, me, id),
{
    assert forall|id: Id| #[trigger] is_guest(body, me, id) implies are_friends(t, me, id) by {
        assert(guests.contains(id));
        let i = choose|i: int| 0 <= i < guests.len() && guests[i] == id;
        assert(are_friends(t, me, guests[i]));
    }
}

/// Making the event without a guest more is making it.
proof fn owned_alone_is_made(
    t: Tables,
    me: Id,
    body: CreateEventBody,
    guests: Seq<Id>,
    event_id: Id,
    s: Session,
)
    requires
        owned(t, me, body, guests, event_id, s),
        guests.len() == 0,
    ensures
        made(t, s.seen(), me, body, event_id),
{
    let (event, owner, day) = choose|event: EventRow, owner: UserEventRow, day: BusydayRow|
        {
            &&& event.id == event_id
            &&& unhindered(t, me, body, guests)
            &&& #[trigger] new_rows(t, body, me, event, owner, day)
            &&& s == (Session {
                stored: t,
                open: Some(with_day(t, event, owner, day)),
            })
        };
    let w = with_day(t, event, owner, day);
    let keys = Seq::<Id>::empty();
    assert(w.user_events.dom() =~= w.user_events.dom().union(keys.to_set()));
    assert(gains_parts_at(w.user_events, invitations(event.id, guests), keys, w.user_events));
    assert(made_at(t, w, me, body, guests, event, owner, day));
}

proof fn creating_is_kept(
    faults: bool,
    t: Tables,
    me: Id,
    body: CreateEventBody,
    a: Running<CreateEvent>,
    reply: Reply,
    b: Running<CreateEvent>,
)
    requires
        t.keyed(),
        creating(faults, t, me, body, a),
        exchange(faults, a, reply, b),
    ensures
        creating(faults, t, me, body, b),
{
    let m = a.step->Ask_0;
    let request = a.step->Ask_1;
    match m {
        CreateEvent::Friend { me: _, draft, guests, at } => {
            if reply is Friendship {
                friend_found(
                    t,
                    request->OneFriendship_0,
                    reply->Friendship_0,
                    me,
                    guests@[at as int],
                );
                guest_is_guest(body, me, guests@, at as int);
            }
        },
        CreateEvent::Begin { .. } => {},
        CreateEvent::OwnDay { me: _, draft, guests } => {
            if reply is Busyday {
                busy_found(t, request->OneBusyday_0, reply->Busyday_0, me, draft.date);
                guests_are_friends(t, me, body, guests@);
            }
        },
        CreateEvent::GuestDay { me: _, draft, guests, at } => {
            if reply is Busyday {
                busy_found(
                    t,
                    request->OneBusyday_0,
                    reply->Busyday_0,
                    guests@[at as int],
                    draft.date,
                );
                guest_is_guest(body, me, guests@, at as int);
                guests_are_friends(t, me, body, guests@);
            }
        },
        CreateEvent::Event { .. } => {
            if reply is StoredEvent {
                assert(new_event(body, me, reply->StoredEvent_0));
            }
        },
        CreateEvent::Owner { me: _, date, guests, event_id } => {
            if reply is Done {
                let new = request->InsertUserEvent_0;
                let u = a.session.seen();
                let v = b.session.seen();
                let row = choose|row: UserEventRow|
                    #![trigger new.stored_as(row)]
                    new.stored_as(row) && gains(u.user_events, row, v.user_events);
                assert(owner_part(event_id, me, row));
            }
        },
        CreateEvent::Reservation { me: _, date, guests, event_id } => {
            if reply is Done {
                let new = request->InsertBusyday_0;
                let u = a.session.seen();
                let v = b.session.seen();
                let day = choose|row: BusydayRow|
                    #![trigger new.stored_as(row)]
                    new.stored_as(row) && gains(u.busydays, row, v.busydays);
                let (event, owner) = choose|event: EventRow, owner: UserEventRow|
                    {
                        &&& #[trigger] new_event(body, me, event)
                        &&& event.id == event_id && event.date == date
                        &&& !t.events.dom().contains(event_id)
                        &&& #[trigger] owner_part(event_id, me, owner)
                        &&& !t.user_events.dom().contains(owner.id)
                        &&& a.session == (Session {
                            stored: t,
                            open: Some(with_owner(t, event, owner)),
                        })
                    };
                assert(new_rows(t, body, me, event, owner, day));
                assert(v == with_day(t, event, owner, day));
                assert(owned(t, me, body, guests@, event_id, b.session));
                if guests@.len() == 0 {
                    owned_alone_is_made(t, me, body, guests@, event_id, b.session);
                }
            }
        },
        CreateEvent::Invitations { event_id, invited } => {
            if reply is Done {
                let guests = invited@;
                let v = b.session.seen();
                let (event, owner, day) = choose|
                    event: EventRow,
                    owner: UserEventRow,
                    day: BusydayRow,
                |
                    {
                        &&& event.id == event_id
                        &&& unhindered(t, me, body, guests)
                        &&& #[trigger] new_rows(t, body, me, event, owner, day)
                        &&& a.session == (Session {
                            stored: t,
                            open: Some(with_day(t, event, owner, day)),
                        })
                    };
                assert(made_at(t, v, me, body, guests, event, owner, day));
            }
        },
        CreateEvent::Commit { event_id } => {
            if reply is Done {
                assert(made(t, b.session.stored, me, body, event_id));
            }
        },
        CreateEvent::Loading(load) => {
            reading_only_reads(load, request);
            reading_changes_nothing(a.session, request, reply, b.session);
            let u = a.session.stored;
            let event_id = choose|event_id: Id|
                {
                    &&& #[trigger] made(t, u, me, body, event_id)
                    &&& !faults ==> reading_event(u, event_id, load, request)
                };
            let (guests, event, owner, day) = choose|
                guests: Seq<Id>,
                event: EventRow,
                owner: UserEventRow,
                day: BusydayRow,
            |
                event.id == event_id && #[trigger] made_at(
                    t,
                    u,
                    me,
                    body,
                    guests,
                    event,
                    owner,
                    day,
                );
            unhindered_is_not_refused(t, me, body, guests);
            if !faults {
                let inner: Step<LoadEvent, EventResponse> = match b.step {
                    Step::Ask(CreateEvent::Loading(l), q) => Step::Ask(l, q),
                    Step::Done(Ok(x)) => Step::Done(Ok(x.1)),
                    Step::Done(Err(why)) => Step::Done(Err(why)),
                    _ => arbitrary(),
                };
                made_is_keyed(t, u, me, body, event_id);
                event_is_read(u, event_id, load, request, reply, inner);
                assert(u.events.dom().contains(event_id));
            }
        },
    }
}

proof fn made_is_keyed(t: Tables, u: Tables, me: Id, body: CreateEventBody, event_id: Id)
    requires
        t.keyed(),
        made(t, u, me, body, event_id),
    ensures
        u.keyed(),
{
    let (guests, event, owner, day) = choose|
        guests: Seq<Id>,
        event: EventRow,
        owner: UserEventRow,
        day: BusydayRow,
    |
        event.id == event_id && #[trigger] made_at(t, u, me, body, guests, event, owner, day);
    let w = with_day(t, event, owner, day);
    let new = invitations(event_id, guests);
    let keys = choose|keys: Seq<Id>| #[trigger]
        gains_parts_at(w.user_events, new, keys, u.user_events);
    assert(keyed(w.user_events));
    assert(u.user_events.dom().finite()) by {
        vstd::seq_lib::seq_to_set_is_finite(keys);
    }
    assert forall|k: Id| #[trigger] u.user_events.dom().contains(k) implies u.user_events[k].id
        == k by {
        if w.user_events.dom().contains(k) {
        } else {
            assert(keys.contains(k));
            let i = choose|i: int| 0 <= i < keys.len() && keys[i] == k;
            assert(u.user_events[keys[i]].id == keys[i]);
        }
    }
}

/// Making an event takes nobody's day that is taken already.
pub proof fn creation_takes_a_free_day(
    t: Tables,
    u: Tables,
    me: Id,
    body: CreateEventBody,
    event_id: Id,
)
    requires
        no_day_twice(t.busydays),
        made(t, u, me, body, event_id),
    ensures
        no_day_twice(u.busydays),
{
    let (guests, event, owner, day) = choose|
        guests: Seq<Id>,
        event: EventRow,
        owner: UserEventRow,
        day: BusydayRow,
    |
        event.id == event_id && #[trigger] made_at(t, u, me, body, guests, event, owner, day);
    assert forall|j: Id, k: Id|
        #![trigger u.busydays.dom().contains(j), u.busydays.dom().contains(k)]
        u.busydays.dom().contains(j) && u.busydays.dom().contains(k) && u.busydays[j].user_id
            == u.busydays[k].user_id && u.busydays[j].date == u.busydays[k].date implies j
        == k by {
        assert(j != day.id ==> t.busydays.dom().contains(j));
        assert(k != day.id ==> t.busydays.dom().contains(k));
    }
}

/// Making an event keeps the tables consistent.
pub proof fn creation_is_consistent(
    t: Tables,
    u: Tables,
    me: Id,
    body: CreateEventBody,
    event_id: Id,
)
    requires
        consistent(t),
        made(t, u, me, body, event_id),
    ensures
        consistent(u),
{
    made_is_keyed(t, u, me, body, event_id);
    let (guests, event, owner, day) = choose|
        guests: Seq<Id>,
        event: EventRow,
        owner: UserEventRow,
        day: BusydayRow,
    |
        event.id == event_id && #[trigger] made_at(t, u, me, body, guests, event, owner, day);
    let w = with_day(t, event, owner, day);
    let new = invitations(event_id, guests);
    let keys = choose|keys: Seq<Id>| #[trigger]
        gains_parts_at(w.user_events, new, keys, u.user_events);
    assert forall|k: Id| #[trigger] u.user_events.dom().contains(k) implies {
        ||| t.user_events.dom().contains(k) && u.user_events[k] == t.user_events[k]
        ||| k == owner.id && u.user_events[k] == owner
        ||| exists|i: int| 0 <= i < keys.len() && #[trigger] keys[i] == k
    } by {
        if !w.user_events.dom().contains(k) {
            assert(keys.contains(k));
        }
    }
    assert forall|i: int| 0 <= i < keys.len() implies {
        &&& u.user_events[#[trigger] keys[i]].user_id == guests[i]
        &&& guests[i] != me
        &&& u.user_events[keys[i]].event_id == event_id
        &&& u.user_events[keys[i]].response_status is Pending
        &&& u.user_events[keys[i]].role is Participant
        &&& keys[i] != owner.id
    } by {
        assert(new[i].stored_as(u.user_events[keys[i]]));
        assert(guests.contains(guests[i]));
    }
    assert(accepts(u, owner.id, me, event_id)) by {
        assert(w.user_events.dom().contains(owner.id));
    }
    creation_takes_a_free_day(t, u, me, body, event_id);
    assert(no_part_twice(u.user_events)) by {
        assert forall|j: Id, k: Id|
            #![trigger u.user_events.dom().contains(j), u.user_events.dom().contains(k)]
            u.user_events.dom().contains(j) && u.user_events.dom().contains(k)
                && u.user_events[j].event_id == u.user_events[k].event_id
                && u.user_events[j].user_id == u.user_events[k].user_id implies j == k by {
            if exists|i: int| 0 <= i < keys.len() && #[trigger] keys[i] == j {
                let a = choose|i: int| 0 <= i < keys.len() && #[trigger] keys[i] == j;
                if exists|i: int| 0 <= i < keys.len() && #[trigger] keys[i] == k {
                    let b = choose|i: int| 0 <= i < keys.len() && #[trigger] keys[i] == k;
                    assert(guests[a] == guests[b]);
                    assert(a == b);
                }
            }
        }
    }
    assert(days_are_backed(u)) by {
        assert forall|d: Id| #[trigger]
            u.busydays.dom().contains(d) && u.busydays[d].event_id is Some implies {
            let e = u.busydays[d].event_id->0;
            &&& u.events.dom().contains(e)
            &&& u.busydays[d].date == u.events[e].date
            &&& exists|p: Id| #[trigger] accepts(u, p, u.busydays[d].user_id, e)
        } by {
            if d != day.id {
                assert(t.busydays.dom().contains(d));
                let e = t.busydays[d].event_id->0;
                let p = choose|p: Id| #[trigger] accepts(t, p, t.busydays[d].user_id, e);
                assert(w.user_events.dom().contains(p));
                assert(accepts(u, p, u.busydays[d].user_id, e));
            }
        }
    }
    assert(confirmations_are_reserved(u)) by {
        assert forall|e: Id| #[trigger]
            u.events.dom().contains(e) && u.events[e].status is Confirmed implies exists|
            p: Id,
            d: Id,
        | #[trigger] holds_day(u, p, d, e) by {
            assert(t.events.dom().contains(e));
            let (p, d) = choose|p: Id, d: Id| #[trigger] holds_day(t, p, d, e);
            assert(w.user_events.dom().contains(p));
            assert(holds_day(u, p, d, e));
        }
    }
    assert(owners_are_reserved(u)) by {
        assert forall|p: Id| #[trigger]
            u.user_events.dom().contains(p) && u.user_events[p].role is Owner
                && u.events[u.user_events[p].event_id].status.open() implies exists|d: Id|
            #[trigger] reserves(u, d, u.user_events[p].user_id, u.user_events[p].event_id) by {
            if p == owner.id {
                assert(reserves(u, day.id, me, event_id));
            } else {
                assert(t.user_events.dom().contains(p));
                let d = choose|d: Id| #[trigger]
                    reserves(t, d, t.user_events[p].user_id, t.user_events[p].event_id);
                assert(reserves(u, d, u.user_events[p].user_id, u.user_events[p].event_id));
            }
        }
    }
}

proof fn creation_begins(
    faults: bool,
    t: Tables,
    me: Id,
    body: CreateEventBody,
    first: Step<CreateEvent, (StatusCode, EventResponse)>,
)
    requires
        CreateEvent::begun(me, body, first),
        first matches Step::Ask(m, request) ==> m.asking(request),
    ensures
        creating(faults, t, me, body, begun(first, t)),
{
}

/// Making an event, to the end: a reply shows the event as it is then stored,
/// with its owner's day taken and every guest invited; a refusal says why the
/// event cannot be made, and leaves the tables as they were.
pub proof fn create_event_runs(
    n: nat,
    t: Tables,
    me: Id,
    body: CreateEventBody,
    first: Step<CreateEvent, (StatusCode, EventResponse)>,
    last: Running<CreateEvent>,
)
    requires
        t.keyed(),
        CreateEvent::begun(me, body, first),
        first matches Step::Ask(m, request) ==> m.asking(request),
        runs(false, n, begun(first, t), last),
    ensures
        last.step matches Step::Done(Ok(reply)) ==> {
            &&& creation_refusal(t, me, body) is None
            &&& reply.0 is Created
            &&& exists|event_id: Id| #[trigger]
                made(t, last.session.stored, me, body, event_id) && shows_stored_event(
                    last.session.stored,
                    event_id,
                    reply.1,
                )
        },
        last.step matches Step::Done(Err(why)) ==> {
            &&& creation_refusal(t, me, body) == Some(why)
            &&& last.session.stored == t
        },
{
    let kept = |r: Running<CreateEvent>| creating(false, t, me, body, r);
    creation_begins(false, t, me, body, first);
    assert forall|c: Running<CreateEvent>, reply: Reply, d: Running<CreateEvent>|
        kept(c) && #[trigger] exchange(false, c, reply, d) implies kept(d) by {
        creating_is_kept(false, t, me, body, c, reply, d);
    }
    runs_keep(false, n, begun(first, t), last, kept);
}

/// Whatever fails on the way, an event is made altogether or not at all. Tables
/// in which nobody is taken twice on one day stay so, and consistent tables stay
/// consistent.
pub proof fn create_event_is_atomic(
    n: nat,
    t: Tables,
    me: Id,
    body: CreateEventBody,
    first: Step<CreateEvent, (StatusCode, EventResponse)>,
    last: Running<CreateEvent>,
)
    requires
        t.keyed(),
        CreateEvent::begun(me, body, first),
        first matches Step::Ask(m, request) ==> m.asking(request),
        runs(true, n, begun(first, t), last),
        last.step is Done,
    ensures
        last.session.stored == t || exists|event_id: Id| #[trigger]
            made(t, last.session.stored, me, body, event_id),
        last.step->Done_0 is Ok ==> exists|event_id: Id| #[trigger]
            made(t, last.session.stored, me, body, event_id),
        no_day_twice(t.busydays) ==> no_day_twice(last.session.stored.busydays),
        consistent(t) ==> consistent(last.session.stored),
{
    let kept = |r: Running<CreateEvent>| creating(true, t, me, body, r);
    creation_begins(true, t, me, body, first);
    assert forall|c: Running<CreateEvent>, reply: Reply, d: Running<CreateEvent>|
        kept(c) && #[trigger] exchange(true, c, reply, d) implies kept(d) by {
        creating_is_kept(true, t, me, body, c, reply, d);
    }
    runs_keep(true, n, begun(first, t), last, kept);
    let u = last.session.stored;
    if u != t {
        let event_id = choose|event_id: Id| #[trigger] made(t, u, me, body, event_id);
        if no_day_twice(t.busydays) {
            creation_takes_a_free_day(t, u, me, body, event_id);
        }
        if consistent(t) {
            creation_is_consistent(t, u, me, body, event_id);
        }
    }
}

/// Who is invited does not depend on the order in which the guests are named, nor
/// on how often each is.
pub proof fn guests_are_a_set(first: Seq<Id>, second: Seq<Id>, me: Id, one: Seq<Id>, two: Seq<Id>)
    requires
        forall|id: Id| #[trigger] first.contains(id) <==> second.contains(id),
        guest_list(first, me, one),
        guest_list(second, me, two),
    ensures
        one == two,
{
    assert forall|id: Id| #[trigger] one.contains(id) <==> two.contains(id) by {
        assert(first.contains(id) <==> second.contains(id));
    }
    ascending_is_one(one, two);
}

/// There is one way to put a set of identifiers in ascending order.
proof fn ascending_is_one(one: Seq<Id>, two: Seq<Id>)
    requires
        ascending(one),
        ascending(two),
        forall|id: Id| #[trigger] one.contains(id) <==> two.contains(id),
    ensures
        one == two,
    decreases one.len(),
{
    if one.len() == 0 {
        if two.len() > 0 {
            assert(two.contains(two[0]) && one.contains(two[0]));
        }
        assert(one =~= two);
    } else {
        let x = one.last();
        assert(one.contains(x));
        let i = choose|i: int| 0 <= i < two.len() && two[i] == x;
        let y = two.last();
        assert(two.contains(y) && one.contains(y));
        let j = choose|j: int| 0 <= j < one.len() && one[j] == y;
        assert(x == y);
        let a = one.drop_last();
        let b = two.drop_last();
        assert forall|id: Id| #[trigger] a.contains(id) <==> b.contains(id) by {
            if a.contains(id) {
                let k = choose|k: int| 0 <= k < a.len() && a[k] == id;
                assert(one[k] == id && id < x);
                assert(one.contains(id));
                let l = choose|l: int| 0 <= l < two.len() && two[l] == id;
                assert(b[l] == id);
            }
            if b.contains(id) {
                let k = choose|k: int| 0 <= k < b.len() && b[k] == id;
                assert(two[k] == id && id < x);
                assert(two.contains(id) && one.contains(id));
                let l = choose|l: int| 0 <= l < one.len() && one[l] == id;
                assert(a[l] == id);
            }
        }
        ascending_is_one(a, b);
        assert(one =~= a.push(x));
        assert(two =~= b.push(y));
    }
}

} // verus!
