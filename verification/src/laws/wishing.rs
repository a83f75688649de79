//! How wish places are shown, made and changed.

use crate::controllers::models::{CreateWishPlaceBody, UpdateWishPlaceBody, WishPlaceResponse};
use crate::controllers::wish_place_controller::{
    named_status, place_by, shows_place, shows_places, wants_nothing, CreateWishPlace,
    DeleteWishPlace, GetWishPlaces, UpdateWishPlace, VisitWishPlace,
};
use crate::entities::{Id, WishPlaceRow, WishPlaceStatus};
use crate::laws::facts::{are_friends, event_found, friend_found};
use crate::laws::reading::{lists_alike, reading_changes_nothing};
use crate::machine::{Machine, Step};
use crate::model::{
    begun, exchange, finds, gains, lists, places_in_order, runs, runs_keep, through, Running,
    Session, Tables,
};
use crate::refusal::{Refusal, StatusCode};
use crate::store::{Cond, Order, Reply, WishPlaceTest};
use crate::text::blank;
use vstd::prelude::*;

verus! {

/// `shown` shows the wish places of a user, each once and the latest first.
pub open spec fn shows_wishes(t: Tables, user_id: Id, shown: Seq<WishPlaceResponse>) -> bool {
    exists|rows: Seq<WishPlaceRow>|
        {
            &&& lists(t.wish_places, |place: WishPlaceRow| place.user_id == user_id, rows)
            &&& places_in_order(rows, Order::Descending)
            &&& #[trigger] shows_places(rows, shown)
        }
}

/// The wish places of a user are shown to that user and to friends, and to
/// nobody else.
pub proof fn get_wish_places_runs(
    n: nat,
    t: Tables,
    me: Id,
    user_id: Id,
    first: Step<GetWishPlaces, Vec<WishPlaceResponse>>,
    last: Running<GetWishPlaces>,
)
    requires
        if me == user_id {
            first.waits_at(GetWishPlaces::Places { user_id })
        } else {
            first.waits_at(GetWishPlaces::Friend { me, user_id })
        },
        first matches Step::Ask(m, request) && m.asking(request),
        runs(false, n, begun(first, t), last),
    ensures
        last.step matches Step::Done(Ok(shown)) ==> {
            &&& me == user_id || are_friends(t, me, user_id)
            &&& shows_wishes(t, user_id, shown@)
        },
        last.step matches Step::Done(Err(why)) ==> {
            &&& me != user_id && !are_friends(t, me, user_id)
            &&& why is WishPlacesForbidden
        },
        last.session.stored == t,
{
    let kept = |r: Running<GetWishPlaces>|
        {
            &&& r.session == Session::to(t)
            &&& match r.step {
                Step::Ask(m, request) => {
                    &&& m.asking(request)
                    &&& match m {
                        GetWishPlaces::Friend { me: a, user_id: b } => a == me && b == user_id
                            && me != user_id,
                        GetWishPlaces::Places { user_id: b } => b == user_id && (me == user_id
                            || are_friends(t, me, user_id)),
                    }
                },
                Step::Done(Ok(shown)) => (me == user_id || are_friends(t, me, user_id))
                    && shows_wishes(t, user_id, shown@),
                Step::Done(Err(why)) => me != user_id && !are_friends(t, me, user_id) && why
                    is WishPlacesForbidden,
            }
        };
    assert forall|c: Running<GetWishPlaces>, reply: Reply, d: Running<GetWishPlaces>|
        kept(c) && #[trigger] exchange(false, c, reply, d) implies kept(d) by {
        let request = c.step->Ask_1;
        reading_changes_nothing(c.session, request, reply, d.session);
        match c.step->Ask_0 {
            GetWishPlaces::Friend { .. } => {
                friend_found(t, request->OneFriendship_0, reply->Friendship_0, me, user_id);
            },
            GetWishPlaces::Places { .. } => {
                let rows = reply->WishPlaces_0@;
                lists_alike(
                    t.wish_places,
                    through(request->AllWishPlaces_0),
                    |place: WishPlaceRow| place.user_id == user_id,
                    rows,
                );
                assert(shows_places(rows, d.step->Done_0->Ok_0@));
            },
        }
    }
    runs_keep(false, n, begun(first, t), last, kept);
}

/// `row` is the place that `me` describes, newly wished for.
pub open spec fn new_place(me: Id, body: CreateWishPlaceBody, row: WishPlaceRow) -> bool {
    &&& row.user_id == me
    &&& row.title == body.title
    &&& row.description == body.description
    &&& row.location == body.location
    &&& row.link == body.link
    &&& row.status is Active
    &&& row.visited_event_id is None
}

/// Making a wish place, whatever fails: a reply shows the place, which is then
/// stored, and nothing else is different; a refusal leaves the tables as they
/// were. Without a failure only a title that says nothing is refused.
pub proof fn create_wish_place_runs(
    faults: bool,
    n: nat,
    t: Tables,
    me: Id,
    body: CreateWishPlaceBody,
    first: Step<CreateWishPlace, (StatusCode, WishPlaceResponse)>,
    last: Running<CreateWishPlace>,
)
    requires
        if blank(body.title@) {
            first.refused(Refusal::WishPlaceTitleMissing)
        } else {
            first.waits_at(CreateWishPlace::Insert { me, wanted: Ghost(body) })
        },
        first matches Step::Ask(m, request) ==> m.asking(request),
        runs(faults, n, begun(first, t), last),
    ensures
        last.step matches Step::Done(Ok(reply)) ==> {
            let u = last.session.stored;
            &&& !blank(body.title@)
            &&& reply.0 is Created
            &&& exists|row: WishPlaceRow|
                {
                    &&& #[trigger] new_place(me, body, row)
                    &&& gains(t.wish_places, row, u.wish_places)
                    &&& u == (Tables { wish_places: u.wish_places, ..t })
                    &&& shows_place(row, reply.1)
                }
        },
        last.step matches Step::Done(Err(why)) ==> {
            &&& last.session.stored == t
            &&& !faults ==> blank(body.title@) && why is WishPlaceTitleMissing
        },
{
    let kept = |r: Running<CreateWishPlace>|
        match r.step {
            Step::Ask(m, request) => {
                &&& m.asking(request)
                &&& m == (CreateWishPlace::Insert { me, wanted: Ghost(body) })
                &&& !blank(body.title@)
                &&& r.session == Session::to(t)
            },
            Step::Done(Ok(reply)) => {
                let u = r.session.stored;
                &&& !blank(body.title@)
                &&& reply.0 is Created
                &&& exists|row: WishPlaceRow|
                    {
                        &&& #[trigger] new_place(me, body, row)
                        &&& gains(t.wish_places, row, u.wish_places)
                        &&& u == (Tables { wish_places: u.wish_places, ..t })
                        &&& shows_place(row, reply.1)
                    }
            },
            Step::Done(Err(why)) => {
                &&& r.session.stored == t
                &&& !faults ==> blank(body.title@) && why is WishPlaceTitleMissing
            },
        };
    assert forall|c: Running<CreateWishPlace>, reply: Reply, d: Running<CreateWishPlace>|
        kept(c) && #[trigger] exchange(faults, c, reply, d) implies kept(d) by {
        if reply is StoredWishPlace {
            assert(new_place(me, body, reply->StoredWishPlace_0));
        }
    }
    runs_keep(faults, n, begun(first, t), last, kept);
}

/// `me` has this wish place.
pub open spec fn owns_place(t: Tables, me: Id, id: Id) -> bool {
    t.wish_places.dom().contains(id) && t.wish_places[id].user_id == me
}

/// A wish place is found by its owner.
proof fn place_found(
    t: Tables,
    c: Cond<WishPlaceTest>,
    found: Option<WishPlaceRow>,
    id: Id,
    owner: Id,
)
    requires
        t.keyed(),
        c.means(place_by(id, owner)),
        finds(t.wish_places, through(c), found),
    ensures
        found is Some <==> owns_place(t, owner, id),
        found matches Some(row) ==> row == t.wish_places[id],
        found matches Some(row) ==> row.id == id,
{
    match found {
        Some(row) => {
            assert(c.admits(row));
        },
        None => {
            if t.wish_places.dom().contains(id) {
                assert(!c.admits(t.wish_places[id]));
            }
        },
    }
}

/// The tables with one wish place changed. Nothing else is different.
pub open spec fn with_place(t: Tables, id: Id, place: WishPlaceRow) -> Tables {
    Tables { wish_places: t.wish_places.insert(id, place), ..t }
}

/// A wish place with what is given written, and the rest as it was; only a place
/// that is visited keeps the event of its visit when the status is given.
pub open spec fn changed_place(place: WishPlaceRow, body: UpdateWishPlaceBody) -> WishPlaceRow {
    WishPlaceRow {
        title: match body.title {
            Some(title) => title,
            None => place.title,
        },
        description: match body.description {
            Some(description) => Some(description),
            None => place.description,
        },
        location: match body.location {
            Some(location) => Some(location),
            None => place.location,
        },
        link: match body.link {
            Some(link) => Some(link),
            None => place.link,
        },
        status: match body.status {
            Some(status) => named_status(status),
            None => place.status,
        },
        visited_event_id: match body.status {
            Some(status) => if status is Visited {
                place.visited_event_id
            } else {
                None
            },
            None => place.visited_event_id,
        },
        ..place
    }
}

/// Why `me` cannot change a wish place, if that is so.
pub open spec fn refusal_to_change(
    t: Tables,
    me: Id,
    id: Id,
    body: UpdateWishPlaceBody,
) -> Option<Refusal> {
    if !owns_place(t, me, id) {
        Some(Refusal::WishPlaceMissing)
    } else if wants_nothing(body) {
        Some(Refusal::NothingToUpdate)
    } else if body.title matches Some(title) && blank(title@) {
        Some(Refusal::WishPlaceTitleEmpty)
    } else {
        None
    }
}

/// Changing a wish place, whatever fails: a reply shows the place as it is then
/// stored, and nothing else is different; a refusal leaves the tables as they
/// were, and without a failure says why `me` cannot change the place.
pub proof fn update_wish_place_runs(
    faults: bool,
    n: nat,
    t: Tables,
    me: Id,
    id: Id,
    body: UpdateWishPlaceBody,
    first: Step<UpdateWishPlace, WishPlaceResponse>,
    last: Running<UpdateWishPlace>,
)
    requires
        t.keyed(),
        first.waits_at(UpdateWishPlace::Find { me, id, body }),
        first matches Step::Ask(m, request) && m.asking(request),
        runs(faults, n, begun(first, t), last),
    ensures
        last.step matches Step::Done(Ok(shown)) ==> {
            let place = changed_place(t.wish_places[id], body);
            &&& refusal_to_change(t, me, id, body) is None
            &&& last.session.stored == with_place(t, id, place)
            &&& shows_place(place, shown)
        },
        last.step matches Step::Done(Err(why)) ==> {
            &&& last.session.stored == t
            &&& !faults ==> refusal_to_change(t, me, id, body) == Some(why)
        },
{
    let place = changed_place(t.wish_places[id], body);
    let kept = |r: Running<UpdateWishPlace>|
        match r.step {
            Step::Ask(m, request) => {
                &&& m.asking(request)
                &&& r.session == Session::to(t)
                &&& match m {
                    UpdateWishPlace::Find { me: a, id: b, body: c } => a == me && b == id && c
                        == body,
                    UpdateWishPlace::Update { id: b, wanted } => b == id && wanted@ == body
                        && refusal_to_change(t, me, id, body) is None,
                }
            },
            Step::Done(Ok(shown)) => {
                &&& refusal_to_change(t, me, id, body) is None
                &&& r.session.stored == with_place(t, id, place)
                &&& shows_place(place, shown)
            },
            Step::Done(Err(why)) => {
                &&& r.session.stored == t
                &&& !faults ==> refusal_to_change(t, me, id, body) == Some(why)
            },
        };
    assert forall|c: Running<UpdateWishPlace>, reply: Reply, d: Running<UpdateWishPlace>|
        kept(c) && #[trigger] exchange(faults, c, reply, d) implies kept(d) by {
        match c.step->Ask_0 {
            UpdateWishPlace::Find { .. } => {
                if reply is WishPlace {
                    place_found(t, c.step->Ask_1->OneWishPlace_0, reply->WishPlace_0, id, me);
                }
            },
            UpdateWishPlace::Update { .. } => {
                if reply is StoredWishPlace {
                    let changes = c.step->Ask_1->UpdateWishPlace_1;
                    assert(changes.made_to(t.wish_places[id]) == place);
                }
            },
        }
    }
    runs_keep(faults, n, begun(first, t), last, kept);
}

/// Why `me` cannot mark a wish place as visited at an event, if that is so.
pub open spec fn refusal_to_visit(t: Tables, me: Id, id: Id, event_id: Id) -> Option<Refusal> {
    if !owns_place(t, me, id) {
        Some(Refusal::WishPlaceMissing)
    } else if !t.events.dom().contains(event_id) {
        Some(Refusal::EventNotFound)
    } else if t.events[event_id].creator_id != me {
        Some(Refusal::VisitForbidden)
    } else {
        None
    }
}

/// A wish place that was visited at an event.
pub open spec fn visited_place(place: WishPlaceRow, event_id: Id) -> WishPlaceRow {
    WishPlaceRow {
        status: WishPlaceStatus::Visited,
        visited_event_id: Some(event_id),
        ..place
    }
}

/// Marking a wish place as visited, whatever fails: a reply shows the place as it
/// is then stored, and nothing else is different; a refusal leaves the tables as
/// they were, and without a failure says why `me` cannot do so.
pub proof fn visit_wish_place_runs(
    faults: bool,
    n: nat,
    t: Tables,
    me: Id,
    id: Id,
    event_id: Id,
    first: Step<VisitWishPlace, WishPlaceResponse>,
    last: Running<VisitWishPlace>,
)
    requires
        t.keyed(),
        first.waits_at(VisitWishPlace::Find { me, id, event_id }),
        first matches Step::Ask(m, request) && m.asking(request),
        runs(faults, n, begun(first, t), last),
    ensures
        last.step matches Step::Done(Ok(shown)) ==> {
            let place = visited_place(t.wish_places[id], event_id);
            &&& refusal_to_visit(t, me, id, event_id) is None
            &&& last.session.stored == with_place(t, id, place)
            &&& shows_place(place, shown)
        },
        last.step matches Step::Done(Err(why)) ==> {
            &&& last.session.stored == t
            &&& !faults ==> refusal_to_visit(t, me, id, event_id) == Some(why)
        },
{
    let place = visited_place(t.wish_places[id], event_id);
    let kept = |r: Running<VisitWishPlace>|
        match r.step {
            Step::Ask(m, request) => {
                &&& m.asking(request)
                &&& r.session == Session::to(t)
                &&& match m {
                    VisitWishPlace::Find { me: a, id: b, event_id: e } => a == me && b == id && e
                        == event_id,
                    VisitWishPlace::Event { me: a, place: b, event_id: e } => a == me && b == id
                        && e == event_id && owns_place(t, me, id),
                    VisitWishPlace::Update { place: b, event_id: e } => b == id && e == event_id
                        && refusal_to_visit(t, me, id, event_id) is None,
                }
            },
            Step::Done(Ok(shown)) => {
                &&& refusal_to_visit(t, me, id, event_id) is None
                &&& r.session.stored == with_place(t, id, place)
                &&& shows_place(place, shown)
            },
            Step::Done(Err(why)) => {
                &&& r.session.stored == t
                &&& !faults ==> refusal_to_visit(t, me, id, event_id) == Some(why)
            },
        };
    assert forall|c: Running<VisitWishPlace>, reply: Reply, d: Running<VisitWishPlace>|
        kept(c) && #[trigger] exchange(faults, c, reply, d) implies kept(d) by {
        match c.step->Ask_0 {
            VisitWishPlace::Find { .. } => {
                if reply is WishPlace {
                    place_found(t, c.step->Ask_1->OneWishPlace_0, reply->WishPlace_0, id, me);
                }
            },
            VisitWishPlace::Event { .. } => {
                if reply is Event {
                    event_found(t, c.step->Ask_1->OneEvent_0, reply->Event_0, event_id);
                }
            },
            VisitWishPlace::Update { .. } => {
                if reply is StoredWishPlace {
                    let changes = c.step->Ask_1->UpdateWishPlace_1;
                    assert(changes.made_to(t.wish_places[id]) == place);
                }
            },
        }
    }
    runs_keep(faults, n, begun(first, t), last, kept);
}

/// A wish place that is archived.
pub open spec fn archived_place(place: WishPlaceRow) -> WishPlaceRow {
    WishPlaceRow { status: WishPlaceStatus::Archived, ..place }
}

/// Archiving a wish place, whatever fails: if that is what is answered, the place
/// is archived, and nothing else is different; else nothing is. Without a
/// failure it is answered to the owner.
pub proof fn delete_wish_place_runs(
    faults: bool,
    n: nat,
    t: Tables,
    me: Id,
    id: Id,
    first: Step<DeleteWishPlace, StatusCode>,
    last: Running<DeleteWishPlace>,
)
    requires
        t.keyed(),
        first.waits_at(DeleteWishPlace::Find { me, id }),
        first matches Step::Ask(m, request) && m.asking(request),
        runs(faults, n, begun(first, t), last),
    ensures
        last.step matches Step::Done(Ok(code)) ==> {
            &&& code is NoContent
            &&& owns_place(t, me, id)
            &&& last.session.stored == with_place(t, id, archived_place(t.wish_places[id]))
        },
        last.step matches Step::Done(Err(why)) ==> {
            &&& last.session.stored == t
            &&& !faults ==> why is WishPlaceMissing && !owns_place(t, me, id)
        },
{
    let place = archived_place(t.wish_places[id]);
    let kept = |r: Running<DeleteWishPlace>|
        match r.step {
            Step::Ask(m, request) => {
                &&& m.asking(request)
                &&& r.session == Session::to(t)
                &&& match m {
                    DeleteWishPlace::Find { me: a, id: b } => a == me && b == id,
                    DeleteWishPlace::Update { place: b } => b == id && owns_place(t, me, id),
                }
            },
            Step::Done(Ok(code)) => {
                &&& code is NoContent
                &&& owns_place(t, me, id)
                &&& r.session.stored == with_place(t, id, place)
            },
            Step::Done(Err(why)) => {
                &&& r.session.stored == t
                &&& !faults ==> why is WishPlaceMissing && !owns_place(t, me, id)
            },
        };
    assert forall|c: Running<DeleteWishPlace>, reply: Reply, d: Running<DeleteWishPlace>|
        kept(c) && #[trigger] exchange(faults, c, reply, d) implies kept(d) by {
        match c.step->Ask_0 {
            DeleteWishPlace::Find { .. } => {
                if reply is WishPlace {
                    place_found(t, c.step->Ask_1->OneWishPlace_0, reply->WishPlace_0, id, me);
                }
            },
            DeleteWishPlace::Update { .. } => {
                if reply is StoredWishPlace {
                    let changes = c.step->Ask_1->UpdateWishPlace_1;
                    assert(changes.made_to(t.wish_places[id]) == place);
                }
            },
        }
    }
    runs_keep(faults, n, begun(first, t), last, kept);
}

} // verus!
