//! What making an event stores, and when it is refused.

use crate::controllers::dates::named_day;
use crate::controllers::event_controller::create::{create_event, invitations, CreateEvent};
use crate::controllers::models::{AuthUser, CreateEventBody, EventResponse};
use crate::entities::{BusydayRow, EventRow, Id, UserEventRow};
use crate::laws::creating::{
    create_event_is_atomic, create_event_runs, is_guest, made, made_at, with_day,
};
use crate::laws::facts::{are_friends, is_taken};
use crate::laws::reading::shows_stored_event;
use crate::machine::{Machine, Step};
use crate::model::{begun, gains_parts_at, runs, Running, Tables};
use crate::refusal::StatusCode;
use crate::text::white_space;
use crate::time::{calendar_day, day_text, same_day, Date};
use vstd::prelude::*;

verus! {

/// An event that is made has what the client gives, is pending and has no image.
/// Its maker owns it, has accepted it, and is taken on its day for it; everybody
/// else who is named has one invitation that waits for an answer. Everything else
/// is as it was.
pub proof fn what_making_stores(
    t: Tables,
    u: Tables,
    me: Id,
    body: CreateEventBody,
    event_id: Id,
)
    requires
        t.keyed(),
        made(t, u, me, body, event_id),
    ensures
        !t.events.dom().contains(event_id),
        u.events == t.events.insert(event_id, u.events[event_id]),
        u.events[event_id].id == event_id,
        u.events[event_id].creator_id == me,
        named_day(body.date@) == Some(u.events[event_id].date.ymd()),
        u.events[event_id].title == body.title,
        u.events[event_id].description == body.description,
        u.events[event_id].location == body.location,
        u.events[event_id].wish_place_id == body.wish_place_id,
        u.events[event_id].status is Pending,
        u.events[event_id].memory_image_base64 is None,
        u.users == t.users,
        u.friendships == t.friendships,
        u.wish_places == t.wish_places,
        exists|d: Id|
            {
                &&& #[trigger] u.busydays.dom().contains(d)
                &&& !t.busydays.dom().contains(d)
                &&& u.busydays == t.busydays.insert(d, u.busydays[d])
                &&& u.busydays[d].user_id == me
                &&& u.busydays[d].date == u.events[event_id].date
                &&& u.busydays[d].event_id == Some(event_id)
            },
        forall|k: Id| #[trigger]
            t.user_events.dom().contains(k) ==> u.user_events.dom().contains(k)
                && u.user_events[k] == t.user_events[k],
        forall|k: Id| #[trigger]
            u.user_events.dom().contains(k) && !t.user_events.dom().contains(k) ==> {
                &&& u.user_events[k].event_id == event_id
                &&& if u.user_events[k].user_id == me {
                    u.user_events[k].role is Owner && u.user_events[k].response_status is Accepted
                } else {
                    &&& u.user_events[k].role is Participant
                    &&& u.user_events[k].response_status is Pending
                    &&& body.participant_ids@.contains(u.user_events[k].user_id)
                }
            },
        forall|j: Id, k: Id|
            #![trigger u.user_events.dom().contains(j), u.user_events.dom().contains(k)]
            u.user_events.dom().contains(j) && !t.user_events.dom().contains(j)
                && u.user_events.dom().contains(k) && !t.user_events.dom().contains(k)
                && u.user_events[j].user_id == u.user_events[k].user_id ==> j == k,
        exists|k: Id| #[trigger]
            u.user_events.dom().contains(k) && !t.user_events.dom().contains(k)
                && u.user_events[k].user_id == me,
        forall|id: Id| #[trigger]
            body.participant_ids@.contains(id) ==> exists|k: Id| #[trigger]
                u.user_events.dom().contains(k) && !t.user_events.dom().contains(k)
                    && u.user_events[k].user_id == id,
{
    let (guests, event, owner, day) = choose|
        guests: Seq<Id>,
        event: EventRow,
        owner: UserEventRow,
        day: BusydayRow,
    |
        event.id == event_id && #[trigger] made_at(t, u, me, body, guests, event, owner, day);
    let w = with_day(t, event, owner, day);
    let new = invitations(event_id, guests);
    let keys = choose|keys: Seq<Id>| #[trigger]
        gains_parts_at(w.user_events, new, keys, u.user_events);
    assert(u.busydays.dom().contains(day.id));
    assert(u.busydays[day.id] == day);
    assert(u.busydays == t.busydays.insert(day.id, u.busydays[day.id]));
    assert(w.user_events.dom().contains(owner.id));
    assert forall|k: Id| #[trigger] t.user_events.dom().contains(k) implies
        u.user_events.dom().contains(k) && u.user_events[k] == t.user_events[k] by {
        assert(w.user_events.dom().contains(k));
    }
    assert forall|i: int| 0 <= i < keys.len() implies {
        &&& u.user_events.dom().contains(#[trigger] keys[i])
        &&& !t.user_events.dom().contains(keys[i])
        &&& keys[i] != owner.id
        &&& u.user_events[keys[i]].user_id == guests[i]
        &&& u.user_events[keys[i]].event_id == event_id
        &&& u.user_events[keys[i]].role is Participant
        &&& u.user_events[keys[i]].response_status is Pending
        &&& guests[i] != me
        &&& body.participant_ids@.contains(guests[i])
    } by {
        assert(keys.contains(keys[i]));
        assert(new[i].stored_as(u.user_events[keys[i]]));
        assert(guests.contains(guests[i]));
        assert(!w.user_events.dom().contains(keys[i]));
    }
    assert forall|k: Id| #[trigger]
        u.user_events.dom().contains(k) && !t.user_events.dom().contains(k) implies {
        ||| k == owner.id && u.user_events[k] == owner
        ||| exists|i: int| 0 <= i < keys.len() && #[trigger] keys[i] == k
    } by {
        if k != owner.id {
            assert(!w.user_events.dom().contains(k));
            assert(keys.contains(k));
        }
    }
    assert forall|j: Id, k: Id|
        #![trigger u.user_events.dom().contains(j), u.user_events.dom().contains(k)]
        u.user_events.dom().contains(j) && !t.user_events.dom().contains(j)
            && u.user_events.dom().contains(k) && !t.user_events.dom().contains(k)
            && u.user_events[j].user_id == u.user_events[k].user_id implies j == k by {
        if j != owner.id && k != owner.id {
            let a = choose|i: int| 0 <= i < keys.len() && #[trigger] keys[i] == j;
            let b = choose|i: int| 0 <= i < keys.len() && #[trigger] keys[i] == k;
            assert(guests[a] == guests[b]);
            assert(a == b);
        }
    }
    assert(u.user_events.dom().contains(owner.id));
    assert forall|id: Id| #[trigger]
        body.participant_ids@.contains(id) implies exists|k: Id| #[trigger]
        u.user_events.dom().contains(k) && !t.user_events.dom().contains(k)
            && u.user_events[k].user_id == id by {
        if id == me {
            assert(u.user_events.dom().contains(owner.id));
        } else {
            assert(guests.contains(id));
            let i = choose|i: int| 0 <= i < guests.len() && guests[i] == id;
            assert(u.user_events.dom().contains(keys[i]));
        }
    }
}

/// The reply to making an event shows what the client gave: title, description,
/// location, wish place and day; that it is pending; and who made it. If the client
/// wrote the day `d`, the event is on that day.
pub proof fn an_event_is_made_as_it_is_described(
    n: nat,
    t: Tables,
    auth: AuthUser,
    body: CreateEventBody,
    d: Date,
    first: Step<CreateEvent, (StatusCode, EventResponse)>,
    last: Running<CreateEvent>,
)
    requires
        t.keyed(),
        call_ensures(create_event, (auth, body), first),
        runs(false, n, begun(first, t), last),
        last.step matches Step::Done(Ok(_)),
    ensures
        last.step matches Step::Done(Ok(reply)) && {
            let u = last.session.stored;
            let shown = reply.1;
            &&& reply.0 is Created
            &&& made(t, u, auth.user_id, body, shown.id)
            &&& shows_stored_event(u, shown.id, shown)
            &&& shown.creator_id == auth.user_id
            &&& shown.title == body.title
            &&& shown.description == body.description
            &&& shown.location == body.location
            &&& shown.wish_place_id == body.wish_place_id
            &&& shown.memory_image_base64 is None
            &&& shown.status@ == "pending"@
            &&& calendar_day(d.ymd().0, d.ymd().1, d.ymd().2) && body.date@ == day_text(
                d.ymd().0,
                d.ymd().1,
                d.ymd().2,
            ) ==> shown.date@ == body.date@ && u.events[shown.id].date == d
        },
{
    let me = auth.user_id;
    create_event_runs(n, t, me, body, first, last);
    let u = last.session.stored;
    let shown = last.step->Done_0->Ok_0.1;
    let id = choose|id: Id| #[trigger]
        made(t, u, me, body, id) && shows_stored_event(u, id, shown);
    what_making_stores(t, u, me, body, id);
    if body.date@ == d.text() {
        same_day(u.events[id].date, d);
    }
}

/// A request to make an event that is granted has stored just this: the event as it is
/// described, the part of its creator, one invitation for each guest, and the day that
/// it takes of its creator.
pub proof fn making_an_event_stores_it(
    n: nat,
    t: Tables,
    auth: AuthUser,
    body: CreateEventBody,
    first: Step<CreateEvent, (StatusCode, EventResponse)>,
    last: Running<CreateEvent>,
)
    requires
        t.keyed(),
        call_ensures(create_event, (auth, body), first),
        runs(false, n, begun(first, t), last),
        last.step matches Step::Done(Ok(_)),
    ensures
        ({
            let u = last.session.stored;
            let me = auth.user_id;
            let event_id = last.step->Done_0->Ok_0.1.id;
            &&& !t.events.dom().contains(event_id)
            &&& u.events == t.events.insert(event_id, u.events[event_id])
            &&& u.events[event_id].id == event_id
            &&& u.events[event_id].creator_id == me
            &&& named_day(body.date@) == Some(u.events[event_id].date.ymd())
            &&& u.events[event_id].title == body.title
            &&& u.events[event_id].description == body.description
            &&& u.events[event_id].location == body.location
            &&& u.events[event_id].wish_place_id == body.wish_place_id
            &&& u.events[event_id].status is Pending
            &&& u.events[event_id].memory_image_base64 is None
            &&& u.users == t.users
            &&& u.friendships == t.friendships
            &&& u.wish_places == t.wish_places
            &&& exists|d: Id|
                {
                    &&& #[trigger] u.busydays.dom().contains(d)
                    &&& !t.busydays.dom().contains(d)
                    &&& u.busydays == t.busydays.insert(d, u.busydays[d])
                    &&& u.busydays[d].user_id == me
                    &&& u.busydays[d].date == u.events[event_id].date
                    &&& u.busydays[d].event_id == Some(event_id)
                }
            &&& forall|k: Id| #[trigger]
                t.user_events.dom().contains(k) ==> u.user_events.dom().contains(k)
                    && u.user_events[k] == t.user_events[k]
            &&& forall|k: Id| #[trigger]
                u.user_events.dom().contains(k) && !t.user_events.dom().contains(k) ==> {
                    &&& u.user_events[k].event_id == event_id
                    &&& if u.user_events[k].user_id == me {
                        &&& u.user_events[k].role is Owner
                        &&& u.user_events[k].response_status is Accepted
                    } else {
                        &&& u.user_events[k].role is Participant
                        &&& u.user_events[k].response_status is Pending
                        &&& body.participant_ids@.contains(u.user_events[k].user_id)
                    }
                }
            &&& forall|j: Id, k: Id|
                #![trigger u.user_events.dom().contains(j), u.user_events.dom().contains(k)]
                u.user_events.dom().contains(j) && !t.user_events.dom().contains(j)
                    && u.user_events.dom().contains(k) && !t.user_events.dom().contains(k)
                    && u.user_events[j].user_id == u.user_events[k].user_id ==> j == k
            &&& exists|k: Id| #[trigger]
                u.user_events.dom().contains(k) && !t.user_events.dom().contains(k)
                    && u.user_events[k].user_id == me
            &&& forall|id: Id| #[trigger]
                body.participant_ids@.contains(id) ==> exists|k: Id| #[trigger]
                    u.user_events.dom().contains(k) && !t.user_events.dom().contains(k)
                        && u.user_events[k].user_id == id
        }),
{
    let me = auth.user_id;
    create_event_runs(n, t, me, body, first, last);
    let u = last.session.stored;
    let shown = last.step->Done_0->Ok_0.1;
    let id = choose|id: Id| #[trigger]
        made(t, u, me, body, id) && shows_stored_event(u, id, shown);
    what_making_stores(t, u, me, body, id);
}

/// When making an event is refused, and why: the date is none; the title is white
/// space alone; a guest is no friend; one's own day is taken; a guest's day is
/// taken. The first of these that holds is told, and nothing is stored. If none
/// holds, the event is made.
pub proof fn why_an_event_is_not_made(
    n: nat,
    t: Tables,
    auth: AuthUser,
    body: CreateEventBody,
    first: Step<CreateEvent, (StatusCode, EventResponse)>,
    last: Running<CreateEvent>,
)
    requires
        t.keyed(),
        call_ensures(create_event, (auth, body), first),
        runs(false, n, begun(first, t), last),
        last.step is Done,
    ensures
        ({
            let me = auth.user_id;
            let untitled = forall|i: int|
                0 <= i < body.title@.len() ==> white_space(#[trigger] body.title@[i]);
            let strangers = exists|id: Id| #[trigger]
                body.participant_ids@.contains(id) && id != me && forall|k: Id| #[trigger]
                    t.friendships.dom().contains(k) ==> !(t.friendships[k].status is Accepted && ((
                    t.friendships[k].user_id == me && t.friendships[k].friend_id == id) || (
                    t.friendships[k].user_id == id && t.friendships[k].friend_id == me)));
            match named_day(body.date@) {
                None => last.step matches Step::Done(Err(why)) && why is InvalidDate
                    && last.session.stored == t,
                Some(day) => {
                    let taken = exists|k: Id| #[trigger]
                        t.busydays.dom().contains(k) && t.busydays[k].user_id == me
                            && t.busydays[k].date.ymd() == day;
                    let guest_taken = exists|id: Id| #[trigger]
                        body.participant_ids@.contains(id) && id != me && exists|k: Id| #[trigger]
                            t.busydays.dom().contains(k) && t.busydays[k].user_id == id
                                && t.busydays[k].date.ymd() == day;
                    match last.step {
                        Step::Done(Ok(_)) => !untitled && !strangers && !taken && !guest_taken,
                        Step::Done(Err(why)) => {
                            &&& last.session.stored == t
                            &&& if untitled {
                                why is EventTitleMissing
                            } else if strangers {
                                why is GuestNotFriend
                            } else if taken {
                                why is DayReserved
                            } else {
                                guest_taken && why is GuestBusy
                            }
                        },
                        _ => false,
                    }
                },
            }
        }),
{
    let me = auth.user_id;
    create_event_runs(n, t, me, body, first, last);
    if named_day(body.date@) is Some {
        let day = named_day(body.date@)->0;
        let strangers = exists|id: Id| #[trigger]
            body.participant_ids@.contains(id) && id != me && forall|k: Id| #[trigger]
                t.friendships.dom().contains(k) ==> !(t.friendships[k].status is Accepted && ((
                t.friendships[k].user_id == me && t.friendships[k].friend_id == id) || (
                t.friendships[k].user_id == id && t.friendships[k].friend_id == me)));
        let guest_taken = exists|id: Id| #[trigger]
            body.participant_ids@.contains(id) && id != me && exists|k: Id| #[trigger]
                t.busydays.dom().contains(k) && t.busydays[k].user_id == id
                    && t.busydays[k].date.ymd() == day;
        assert(strangers <==> exists|id: Id| #[trigger]
            is_guest(body, me, id) && !are_friends(t, me, id)) by {
            if strangers {
                let id = choose|id: Id| #[trigger]
                    body.participant_ids@.contains(id) && id != me && forall|k: Id| #[trigger]
                        t.friendships.dom().contains(k) ==> !(t.friendships[k].status is Accepted
                            && ((t.friendships[k].user_id == me && t.friendships[k].friend_id
                            == id) || (t.friendships[k].user_id == id && t.friendships[k].friend_id
                            == me)));
                assert(is_guest(body, me, id) && !are_friends(t, me, id));
            }
            if exists|id: Id| #[trigger] is_guest(body, me, id) && !are_friends(t, me, id) {
                let id = choose|id: Id| #[trigger]
                    is_guest(body, me, id) && !are_friends(t, me, id);
                assert(body.participant_ids@.contains(id));
            }
        }
        assert(guest_taken <==> exists|id: Id| #[trigger]
            is_guest(body, me, id) && is_taken(t, id, day)) by {
            if guest_taken {
                let id = choose|id: Id| #[trigger]
                    body.participant_ids@.contains(id) && id != me && exists|k: Id| #[trigger]
                        t.busydays.dom().contains(k) && t.busydays[k].user_id == id
                            && t.busydays[k].date.ymd() == day;
                assert(is_guest(body, me, id) && is_taken(t, id, day));
            }
            if exists|id: Id| #[trigger] is_guest(body, me, id) && is_taken(t, id, day) {
                let id = choose|id: Id| #[trigger]
                    is_guest(body, me, id) && is_taken(t, id, day);
                assert(body.participant_ids@.contains(id));
            }
        }
    }
}

/// Whatever fails, making an event leaves the tables as they were or the event
/// altogether in them; a reply that it is made is given only then.
pub proof fn making_is_all_or_nothing(
    n: nat,
    t: Tables,
    auth: AuthUser,
    body: CreateEventBody,
    first: Step<CreateEvent, (StatusCode, EventResponse)>,
    last: Running<CreateEvent>,
)
    requires
        t.keyed(),
        call_ensures(create_event, (auth, body), first),
        runs(true, n, begun(first, t), last),
        last.step is Done,
    ensures
        last.session.stored == t || exists|event_id: Id| #[trigger]
            made(t, last.session.stored, auth.user_id, body, event_id),
        last.step->Done_0 is Ok ==> exists|event_id: Id| #[trigger]
            made(t, last.session.stored, auth.user_id, body, event_id),
{
    create_event_is_atomic(n, t, auth.user_id, body, first, last);
}

} // verus!
