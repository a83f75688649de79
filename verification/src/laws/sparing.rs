//! The requests that are not about events leave the events alone.

use crate::controllers::friendship_controller::{
    AcceptFriendRequest, FriendRequest, RejectFriendRequest, RemoveFriend,
};
use crate::controllers::users_controller::UpdateMe;
use crate::controllers::wish_place_controller::{
    CreateWishPlace, DeleteWishPlace, UpdateWishPlace, VisitWishPlace,
};
use crate::entities::{Id, WishPlaceStatus};
use crate::laws::consistency::{
    accepts, confirmations_are_reserved, consistent, days_are_backed, holds_day,
    owners_are_reserved, reserves, wishes_are_open,
};
use crate::laws::facts::without_is_keyed;
use crate::laws::reading::only_reads;
use crate::machine::{Machine, Step};
use crate::model::{begun, carried_out, exchange, keyed, runs, runs_keep, through, Running, Tables};
use crate::store::{Reply, Request, WishPlaceChanges};
use vstd::prelude::*;

verus! {

/// Changes after which a place that is still wished for has no event of its
/// visit.
pub open spec fn keeps_wish_open(changes: WishPlaceChanges) -> bool {
    &&& changes.status == Some(WishPlaceStatus::Active) ==> changes.visited_event_id == Some(
        None::<Id>,
    )
    &&& changes.visited_event_id matches Some(Some(_)) ==> changes.status matches Some(s) && !(s
        is Active)
}

/// The requests that write neither events, parts in them nor busy days, and that
/// leave no event of a visit with a place that is still wished for.
pub open spec fn spares_events(request: Request) -> bool {
    ||| only_reads(request)
    ||| request is InsertFriendship
    ||| request is UpdateFriendship
    ||| request is DeleteFriendship
    ||| request is DeleteFriendships
    ||| request is UpdateUser
    ||| request matches Request::InsertWishPlace(new) && new.visited_event_id is None
    ||| request matches Request::UpdateWishPlace(_, changes) && keeps_wish_open(changes)
}

/// Every question of this kind of request spares the events.
pub open spec fn is_sparing<M: Machine>() -> bool {
    forall|m: M, request: Request| #[trigger] m.asking(request) ==> spares_events(request)
}

/// Tables with the same events, parts and busy days are consistent alike.
proof fn same_events(t: Tables, u: Tables)
    requires
        consistent(t),
        u.events == t.events,
        u.user_events == t.user_events,
        u.busydays == t.busydays,
        u.keyed(),
        wishes_are_open(u),
    ensures
        consistent(u),
{
    assert(days_are_backed(u)) by {
        assert forall|d: Id| #[trigger]
            u.busydays.dom().contains(d) && u.busydays[d].event_id is Some implies {
            let e = u.busydays[d].event_id->0;
            &&& u.events.dom().contains(e)
            &&& u.busydays[d].date == u.events[e].date
            &&& exists|p: Id| #[trigger] accepts(u, p, u.busydays[d].user_id, e)
        } by {
            let e = t.busydays[d].event_id->0;
            let p = choose|p: Id| #[trigger] accepts(t, p, t.busydays[d].user_id, e);
            assert(accepts(u, p, u.busydays[d].user_id, e));
        }
    }
    assert(confirmations_are_reserved(u)) by {
        assert forall|e: Id| #[trigger]
            u.events.dom().contains(e) && u.events[e].status is Confirmed implies exists|
            p: Id,
            d: Id,
        | #[trigger] holds_day(u, p, d, e) by {
            assert(t.events.dom().contains(e));
            let (p, d) = choose|p: Id, d: Id| #[trigger] holds_day(t, p, d, e);
            assert(holds_day(u, p, d, e));
        }
    }
    assert(owners_are_reserved(u)) by {
        assert forall|p: Id| #[trigger]
            u.user_events.dom().contains(p) && u.user_events[p].role is Owner
                && u.events[u.user_events[p].event_id].status.open() implies exists|d: Id|
            #[trigger] reserves(u, d, u.user_events[p].user_id, u.user_events[p].event_id) by {
            let d = choose|d: Id| #[trigger]
                reserves(t, d, t.user_events[p].user_id, t.user_events[p].event_id);
            assert(reserves(u, d, u.user_events[p].user_id, u.user_events[p].event_id));
        }
    }
}

proof fn sparing_is_consistent(t: Tables, request: Request, reply: Reply, u: Tables)
    requires
        spares_events(request),
        carried_out(t, request, reply, u),
    ensures
        consistent(t) ==> consistent(u),
        u.events == t.events,
        u.user_events == t.user_events,
        u.busydays == t.busydays,
{
    if consistent(t) {
        match request {
            Request::DeleteFriendships(c) => {
                without_is_keyed(t.friendships, through(c));
            },
            _ => {},
        }
        assert(keyed(u.friendships));
        assert(keyed(u.users));
        assert(keyed(u.wish_places));
        same_events(t, u);
    }
}

/// A request whose questions spare the events leaves them, the parts in them and
/// the busy days as they are, whatever fails on the way; consistent tables stay
/// consistent.
pub proof fn sparing_requests_keep_events<M: Machine>(
    faults: bool,
    n: nat,
    t: Tables,
    first: Step<M, M::Out>,
    last: Running<M>,
)
    requires
        is_sparing::<M>(),
        first matches Step::Ask(m, request) ==> m.asking(request),
        runs(faults, n, begun(first, t), last),
    ensures
        last.session.stored.events == t.events,
        last.session.stored.user_events == t.user_events,
        last.session.stored.busydays == t.busydays,
        consistent(t) ==> consistent(last.session.stored),
{
    let kept = |r: Running<M>|
        {
            &&& r.session.open is None
            &&& consistent(t) ==> consistent(r.session.stored)
            &&& r.session.stored.events == t.events
            &&& r.session.stored.user_events == t.user_events
            &&& r.session.stored.busydays == t.busydays
            &&& r.step matches Step::Ask(m, request) ==> m.asking(request)
        };
    assert forall|c: Running<M>, reply: Reply, d: Running<M>|
        kept(c) && #[trigger] exchange(faults, c, reply, d) implies kept(d) by {
        let request = c.step->Ask_1;
        assert(spares_events(request));
        if !(reply is Fault) {
            let u = choose|u: Tables| #[trigger]
                carried_out(c.session.seen(), request, reply, u) && d.session == c.session.with(u);
            sparing_is_consistent(c.session.stored, request, reply, u);
        }
    }
    runs_keep(faults, n, begun(first, t), last, kept);
}

/// The requests on friendships, profiles and wish places spare the events.
pub proof fn what_spares_events()
    ensures
        is_sparing::<FriendRequest>(),
        is_sparing::<AcceptFriendRequest>(),
        is_sparing::<RejectFriendRequest>(),
        is_sparing::<RemoveFriend>(),
        is_sparing::<UpdateMe>(),
        is_sparing::<CreateWishPlace>(),
        is_sparing::<UpdateWishPlace>(),
        is_sparing::<VisitWishPlace>(),
        is_sparing::<DeleteWishPlace>(),
{
}

} // verus!
