//! Which requests undo which.

use crate::controllers::event_controller::create::invitations;
use crate::controllers::friends::accepted_between;
use crate::controllers::friendship_controller::offered;
use crate::controllers::models::CreateEventBody;
use crate::entities::{BusydayRow, EventRow, FriendshipRow, Id, UserEventRow};
use crate::laws::accepting::{accepted, accepted_at, unanimous};
use crate::laws::befriending::{
    has_offered, is_offer, with_friendship, with_offer, without_friendship,
};
use crate::laws::canceling::{parts_in, refusal_to_cancel, without_event};
use crate::laws::consistency::{accepts, consistent};
use crate::laws::creating::{made, made_at, with_day};
use crate::laws::declining::{declined, declined_at, nobody_left, taken_for, taken_from};
use crate::laws::facts::are_friends;
use crate::model::{gains, gains_parts_at, without, Tables};
use vstd::prelude::*;

verus! {

/// The parts and the busy days of the tables belong to events that exist.
pub open spec fn rows_name_events(t: Tables) -> bool {
    &&& forall|k: Id| #[trigger]
        t.user_events.dom().contains(k) ==> t.events.dom().contains(t.user_events[k].event_id)
    &&& forall|k: Id| #[trigger]
        t.busydays.dom().contains(k) && t.busydays[k].event_id is Some ==> t.events.dom().contains(
            t.busydays[k].event_id->0,
        )
}

/// In consistent tables, parts and busy days belong to events that exist.
pub proof fn consistent_rows_name_events(t: Tables)
    requires
        consistent(t),
    ensures
        rows_name_events(t),
{
}

/// Canceling an event that has just been made leaves the tables as they were
/// before.
pub proof fn canceling_undoes_creating(
    t: Tables,
    u: Tables,
    me: Id,
    body: CreateEventBody,
    event_id: Id,
)
    requires
        t.keyed(),
        rows_name_events(t),
        made(t, u, me, body, event_id),
    ensures
        without_event(u, event_id) == t,
{
    let v = without_event(u, event_id);
    let (guests, event, owner, day) = choose|
        guests: Seq<Id>,
        event: EventRow,
        owner: UserEventRow,
        day: BusydayRow,
    |
        event.id == event_id && #[trigger] made_at(t, u, me, body, guests, event, owner, day);
    let w = with_day(t, event, owner, day);
    let new = invitations(event_id, guests);
    let keys = choose|keys: Seq<Id>| #[trigger]
        gains_parts_at(w.user_events, new, keys, u.user_events);
    assert(v.events =~= t.events);
    assert(v.user_events =~= t.user_events) by {
        assert forall|k: Id| #[trigger] u.user_events.dom().contains(k) implies (parts_in(event_id)(
            u.user_events[k],
        ) <==> !t.user_events.dom().contains(k)) by {
            if t.user_events.dom().contains(k) {
                assert(w.user_events.dom().contains(k));
                assert(t.events.dom().contains(t.user_events[k].event_id));
            } else if !w.user_events.dom().contains(k) {
                assert(keys.contains(k));
                let i = choose|i: int| 0 <= i < keys.len() && keys[i] == k;
                assert(new[i].stored_as(u.user_events[keys[i]]));
            }
        }
        assert forall|k: Id| #[trigger] t.user_events.dom().contains(k) implies
            u.user_events.dom().contains(k) && u.user_events[k] == t.user_events[k] by {
            assert(w.user_events.dom().contains(k));
        }
        assert(v.user_events.dom() =~= t.user_events.dom());
    }
    assert(v.busydays =~= t.busydays) by {
        assert forall|k: Id| #[trigger] u.busydays.dom().contains(k) implies (taken_for(event_id)(
            u.busydays[k],
        ) <==> k == day.id) by {
            if k != day.id {
                assert(t.busydays.dom().contains(k));
            }
        }
    }
}

/// Somebody has accepted or declined the invitation to an event.
pub open spec fn answer(t: Tables, u: Tables, who: Id, id: Id) -> bool {
    accepted(t, u, who, id) || declined(t, u, who, id)
}

/// The invitations to an event have been answered `n` times.
pub open spec fn answers(n: nat, t: Tables, u: Tables, id: Id) -> bool
    decreases n,
{
    if n == 0 {
        t == u
    } else {
        exists|v: Tables, who: Id|
            answers((n - 1) as nat, t, v, id) && #[trigger] answer(v, u, who, id)
    }
}

/// Answering an invitation touches nothing but what belongs to the event.
pub proof fn an_answer_touches_only_its_event(t: Tables, u: Tables, who: Id, id: Id)
    requires
        answer(t, u, who, id),
    ensures
        without_event(u, id) == without_event(t, id),
        t.events.dom().contains(id) && u.events.dom().contains(id),
        u.events[id].creator_id == t.events[id].creator_id,
        !(u.events[id].status is Completed),
{
    if accepted(t, u, who, id) {
        let (part, day) = choose|part: Id, day: Id| #[trigger]
            accepted_at(t, u, who, id, part, day);
    } else {
        let part = choose|part: Id| #[trigger] declined_at(t, u, who, id, part);
    }
    assert(u.events.remove(id) =~= t.events.remove(id));
    assert(without(u.user_events, parts_in(id)) =~= without(t.user_events, parts_in(id)));
    assert(without(u.busydays, taken_for(id)) =~= without(t.busydays, taken_for(id)));
}

proof fn answers_touch_only_their_event(n: nat, t: Tables, u: Tables, id: Id)
    requires
        t.events.dom().contains(id),
        !(t.events[id].status is Completed),
        answers(n, t, u, id),
    ensures
        without_event(u, id) == without_event(t, id),
        u.events.dom().contains(id),
        u.events[id].creator_id == t.events[id].creator_id,
        !(u.events[id].status is Completed),
    decreases n,
{
    if n > 0 {
        let (v, who) = choose|v: Tables, who: Id|
            answers((n - 1) as nat, t, v, id) && #[trigger] answer(v, u, who, id);
        answers_touch_only_their_event((n - 1) as nat, t, v, id);
        an_answer_touches_only_its_event(v, u, who, id);
    }
}

/// However often the invitations to an event have been accepted or declined since
/// it was made, its creator can cancel it, and that leaves the tables as they
/// were before it was made.
pub proof fn canceling_undoes_creating_and_answers(
    n: nat,
    t: Tables,
    u: Tables,
    v: Tables,
    me: Id,
    body: CreateEventBody,
    event_id: Id,
)
    requires
        t.keyed(),
        rows_name_events(t),
        made(t, u, me, body, event_id),
        answers(n, u, v, event_id),
    ensures
        refusal_to_cancel(v, me, event_id) is None,
        without_event(v, event_id) == t,
{
    canceling_undoes_creating(t, u, me, body, event_id);
    answers_touch_only_their_event(n, u, v, event_id);
}

/// In consistent tables, no day of a user is taken for an event that the user is
/// yet to accept.
pub proof fn no_day_before_accepting(t: Tables, u: Tables, me: Id, id: Id)
    requires
        consistent(t),
        accepted(t, u, me, id),
    ensures
        forall|k: Id| #[trigger]
            t.busydays.dom().contains(k) ==> !taken_from(me, id)(t.busydays[k]),
{
    let (part, day) = choose|part: Id, day: Id| #[trigger] accepted_at(t, u, me, id, part, day);
    assert(t.user_events.dom().contains(part));
    assert forall|k: Id| #[trigger] t.busydays.dom().contains(k) implies !taken_from(me, id)(
        t.busydays[k],
    ) by {
        if taken_from(me, id)(t.busydays[k]) {
            let p = choose|p: Id| #[trigger] accepts(t, p, me, id);
            assert(t.user_events.dom().contains(p));
            assert(p == part);
        }
    }
}

/// Declining an invitation that has just been accepted gives back the day that
/// was taken, if one was, and no other, where none of the user's days was taken for
/// the event before and somebody else is still invited.
pub proof fn declining_frees_what_accepting_took(t: Tables, u: Tables, v: Tables, me: Id, id: Id)
    requires
        t.keyed(),
        forall|k: Id| #[trigger]
            t.busydays.dom().contains(k) ==> !taken_from(me, id)(t.busydays[k]),
        accepted(t, u, me, id),
        declined(u, v, me, id),
        !nobody_left(v.user_events, id),
    ensures
        v.busydays == t.busydays,
{
    let (part, day) = choose|part: Id, day: Id| #[trigger] accepted_at(t, u, me, id, part, day);
    let other = choose|part: Id| #[trigger] declined_at(u, v, me, id, part);
    let last = unanimous(u.user_events, id);
    assert forall|k: Id| #[trigger] u.busydays.dom().contains(k) implies (taken_from(me, id)(
        u.busydays[k],
    ) <==> last && k == day) by {
        if !(last && k == day) {
            assert(t.busydays.dom().contains(k));
        }
    }
    assert(v.busydays =~= t.busydays);
}

/// The only offer of a friendship is the one that has been made.
proof fn the_only_offer(t: Tables, u: Tables, me: Id, friend_id: Id, offer: Id)
    requires
        t.keyed(),
        !has_offered(t, me, friend_id),
        with_offer(t, u, me, friend_id),
        is_offer(u, offer, me, friend_id),
    ensures
        !t.friendships.dom().contains(offer),
        u == (Tables { friendships: t.friendships.insert(offer, u.friendships[offer]), ..t }),
{
    let row = choose|row: FriendshipRow|
        offered(me, friend_id)(row) && #[trigger] gains(t.friendships, row, u.friendships);
    if offer != row.id {
        assert(t.friendships.dom().contains(offer));
        assert(offered(me, friend_id)(t.friendships[offer]));
    }
    assert(u.friendships =~= t.friendships.insert(offer, u.friendships[offer]));
}

/// Rejecting the only offer of friendship leaves the tables as they were before
/// it.
pub proof fn rejecting_undoes_offering(t: Tables, u: Tables, me: Id, friend_id: Id, offer: Id)
    requires
        t.keyed(),
        !has_offered(t, me, friend_id),
        with_offer(t, u, me, friend_id),
        is_offer(u, offer, me, friend_id),
    ensures
        (Tables { friendships: u.friendships.remove(offer), ..u }) == t,
{
    the_only_offer(t, u, me, friend_id, offer);
    assert(u.friendships.remove(offer) =~= t.friendships);
}

/// Ending a friendship that began with the only offer leaves the tables as they
/// were before the offer.
pub proof fn ending_undoes_befriending(t: Tables, u: Tables, me: Id, friend_id: Id, offer: Id)
    requires
        t.keyed(),
        !has_offered(t, me, friend_id),
        !are_friends(t, me, friend_id),
        with_offer(t, u, me, friend_id),
        is_offer(u, offer, me, friend_id),
    ensures
        without_friendship(with_friendship(u, offer), me, friend_id) == t,
        without_friendship(with_friendship(u, offer), friend_id, me) == t,
{
    the_only_offer(t, u, me, friend_id, offer);
    let v = with_friendship(u, offer);
    assert forall|k: Id| #[trigger] v.friendships.dom().contains(k) implies {
        &&& accepted_between(me, friend_id)(v.friendships[k]) <==> k == offer
        &&& accepted_between(friend_id, me)(v.friendships[k]) <==> k == offer
    } by {
        if k != offer {
            assert(t.friendships.dom().contains(k));
            assert(!accepted_between(me, friend_id)(t.friendships[k]));
        }
    }
    assert(without(v.friendships, accepted_between(me, friend_id)) =~= t.friendships);
    assert(without(v.friendships, accepted_between(friend_id, me)) =~= t.friendships);
}

} // verus!
