//! What is said of wish places, and how they are made and changed.

use crate::controllers::models::{
    AuthUser, CreateWishPlaceBody, UpdateWishPlaceBody, VisitWishPlaceBody, WishPlaceQuery,
    WishPlaceResponse, WishPlaceStatusDto,
};
use crate::controllers::wish_place_controller::{
    create_wish_place, delete_wish_place, get_wish_places, map_status, shows_place, shows_places,
    update_wish_place, visit_wish_place, CreateWishPlace, DeleteWishPlace, GetWishPlaces,
    UpdateWishPlace, VisitWishPlace,
};
use crate::entities::{Id, WishPlaceRow, WishPlaceStatus};
use crate::laws::wishing::{
    create_wish_place_runs, delete_wish_place_runs, get_wish_places_runs, new_place,
    update_wish_place_runs, visit_wish_place_runs,
};
use crate::machine::{Machine, Step};
use crate::model::{begun, gains, lists, places_in_order, runs, Running, Tables};
use crate::refusal::StatusCode;
use crate::store::Order;
use crate::text::white_space;
use crate::time::rfc3339_text;
use vstd::prelude::*;

verus! {

/// A wish place is shown with the fields of its row: the status by its name, the
/// time of creation as RFC 3339 writes it.
pub proof fn place_is_shown_field_by_field(row: WishPlaceRow, shown: WishPlaceResponse)
    requires
        shows_place(row, shown),
    ensures
        shown.id == row.id,
        shown.user_id == row.user_id,
        shown.title == row.title,
        shown.description == row.description,
        shown.location == row.location,
        shown.link == row.link,
        shown.visited_event_id == row.visited_event_id,
        row.status is Active ==> shown.status@ == "active"@,
        row.status is Visited ==> shown.status@ == "visited"@,
        row.status is Archived ==> shown.status@ == "archived"@,
        shown.created_at@ == rfc3339_text(
            row.created_at.instant().0,
            row.created_at.instant().1,
            row.created_at.offset(),
        ),
{
}

/// A status that a client names is the stored status of that name.
pub proof fn statuses_keep_their_names(value: WishPlaceStatusDto, status: WishPlaceStatus)
    requires
        call_ensures(map_status, (value,), status),
    ensures
        status is Active <==> value is Active,
        status is Visited <==> value is Visited,
        status is Archived <==> value is Archived,
{
}

/// The user whose they are and friends see exactly the wish places with that
/// user's identifier, each once, as it is stored, the latest first. Others see
/// none.
pub proof fn wish_places_are_shown_to_owner_and_friends(
    n: nat,
    t: Tables,
    auth: AuthUser,
    query: WishPlaceQuery,
    first: Step<GetWishPlaces, Vec<WishPlaceResponse>>,
    last: Running<GetWishPlaces>,
)
    requires
        t.keyed(),
        call_ensures(get_wish_places, (auth, query), first),
        runs(false, n, begun(first, t), last),
        last.step is Done,
    ensures
        last.session.stored == t,
        last.step->Done_0 is Ok <==> (auth.user_id == query.user_id || exists|k: Id| #[trigger]
            t.friendships.dom().contains(k) && t.friendships[k].status is Accepted && ((
            t.friendships[k].user_id == auth.user_id && t.friendships[k].friend_id
                == query.user_id) || (t.friendships[k].user_id == query.user_id
                && t.friendships[k].friend_id == auth.user_id))),
        last.step matches Step::Done(Err(why)) ==> why is WishPlacesForbidden,
        last.step matches Step::Done(Ok(shown)) ==> {
            &&& forall|i: int|
                0 <= i < shown@.len() ==> {
                    let row = t.wish_places[(#[trigger] shown@[i]).id];
                    &&& t.wish_places.dom().contains(shown@[i].id)
                    &&& row.user_id == query.user_id
                    &&& shown@[i].user_id == row.user_id
                    &&& shown@[i].title == row.title
                    &&& shown@[i].description == row.description
                    &&& shown@[i].location == row.location
                    &&& shown@[i].link == row.link
                    &&& shown@[i].visited_event_id == row.visited_event_id
                    &&& row.status is Active ==> shown@[i].status@ == "active"@
                    &&& row.status is Visited ==> shown@[i].status@ == "visited"@
                    &&& row.status is Archived ==> shown@[i].status@ == "archived"@
                }
            &&& forall|i: int, j: int|
                0 <= i < j < shown@.len() ==> {
                    &&& (#[trigger] shown@[i]).id != (#[trigger] shown@[j]).id
                    &&& t.wish_places[shown@[j].id].created_at.le(
                        t.wish_places[shown@[i].id].created_at,
                    )
                }
            &&& forall|k: Id| #[trigger]
                t.wish_places.dom().contains(k) && t.wish_places[k].user_id == query.user_id
                    ==> exists|i: int| 0 <= i < shown@.len() && (#[trigger] shown@[i]).id == k
        },
{
    get_wish_places_runs(n, t, auth.user_id, query.user_id, first, last);
    if let Step::Done(Ok(shown)) = last.step {
        let p = |place: WishPlaceRow| place.user_id == query.user_id;
        let rows = choose|rows: Seq<WishPlaceRow>|
            {
                &&& lists(t.wish_places, |place: WishPlaceRow| place.user_id == query.user_id, rows)
                &&& places_in_order(rows, Order::Descending)
                &&& #[trigger] shows_places(rows, shown@)
            };
        assert forall|i: int| 0 <= i < shown@.len() implies {
            &&& (#[trigger] shown@[i]).id == rows[i].id
            &&& t.wish_places.dom().contains(shown@[i].id)
            &&& t.wish_places[shown@[i].id] == rows[i]
            &&& shows_place(rows[i], shown@[i])
            &&& rows[i].user_id == query.user_id
        } by {
            assert(shows_place(rows[i], shown@[i]));
            assert(t.wish_places.dom().contains(rows[i].id));
        }
        assert forall|i: int, j: int| 0 <= i < j < shown@.len() implies {
            &&& (#[trigger] shown@[i]).id != (#[trigger] shown@[j]).id
            &&& t.wish_places[shown@[j].id].created_at.le(t.wish_places[shown@[i].id].created_at)
        } by {
            assert(rows[i].id != rows[j].id);
            assert(rows[j].created_at.le(rows[i].created_at));
        }
        assert forall|k: Id| #[trigger]
            t.wish_places.dom().contains(k) && t.wish_places[k].user_id
                == query.user_id implies exists|i: int|
            0 <= i < shown@.len() && (#[trigger] shown@[i]).id == k by {
            let i = choose|i: int|
                0 <= i < rows.len() && (#[trigger] rows[i]) == t.wish_places[k];
            assert(shown@[i].id == k);
        }
    }
}

/// Making a wish place adds one row: the maker's, with what the client gives,
/// active and not visited. It is shown so, and nothing else is different. A title
/// of white space alone is refused.
pub proof fn making_a_place_stores_what_is_given(
    faults: bool,
    n: nat,
    t: Tables,
    auth: AuthUser,
    body: CreateWishPlaceBody,
    first: Step<CreateWishPlace, (StatusCode, WishPlaceResponse)>,
    last: Running<CreateWishPlace>,
)
    requires
        t.keyed(),
        call_ensures(create_wish_place, (auth, body), first),
        runs(faults, n, begun(first, t), last),
        last.step is Done,
    ensures
        match last.step {
            Step::Done(Ok(reply)) => {
                let u = last.session.stored;
                let id = reply.1.id;
                &&& reply.0 is Created
                &&& exists|i: int|
                    0 <= i < body.title@.len() && !white_space(#[trigger] body.title@[i])
                &&& u == (Tables { wish_places: u.wish_places, ..t })
                &&& !t.wish_places.dom().contains(id)
                &&& u.wish_places == t.wish_places.insert(id, u.wish_places[id])
                &&& u.wish_places[id].id == id
                &&& u.wish_places[id].user_id == auth.user_id
                &&& u.wish_places[id].title == body.title
                &&& u.wish_places[id].description == body.description
                &&& u.wish_places[id].location == body.location
                &&& u.wish_places[id].link == body.link
                &&& u.wish_places[id].status is Active
                &&& u.wish_places[id].visited_event_id is None
                &&& reply.1.user_id == auth.user_id
                &&& reply.1.title == body.title
                &&& reply.1.description == body.description
                &&& reply.1.location == body.location
                &&& reply.1.link == body.link
                &&& reply.1.status@ == "active"@
                &&& reply.1.visited_event_id is None
            },
            Step::Done(Err(why)) => {
                &&& last.session.stored == t
                &&& !faults ==> why is WishPlaceTitleMissing && forall|i: int|
                    0 <= i < body.title@.len() ==> white_space(#[trigger] body.title@[i])
            },
            _ => false,
        },
{
    create_wish_place_runs(faults, n, t, auth.user_id, body, first, last);
    if let Step::Done(Ok(reply)) = last.step {
        let u = last.session.stored;
        let row = choose|row: WishPlaceRow|
            {
                &&& #[trigger] new_place(auth.user_id, body, row)
                &&& gains(t.wish_places, row, u.wish_places)
                &&& u == (Tables { wish_places: u.wish_places, ..t })
                &&& shows_place(row, reply.1)
            };
        assert(u.wish_places[row.id] == row);
    }
}

/// Changing a wish place writes every field that is given and keeps every field
/// that is not. With a status, the place has the status of that name, and only a
/// visited place keeps the event of its visit. The place is shown as it is then
/// stored, and nothing else is different.
pub proof fn changing_a_place_writes_what_is_given(
    faults: bool,
    n: nat,
    t: Tables,
    auth: AuthUser,
    id: Id,
    body: UpdateWishPlaceBody,
    first: Step<UpdateWishPlace, WishPlaceResponse>,
    last: Running<UpdateWishPlace>,
)
    requires
        t.keyed(),
        call_ensures(update_wish_place, (auth, id, body), first),
        runs(faults, n, begun(first, t), last),
        last.step is Done,
    ensures
        match last.step {
            Step::Done(Ok(shown)) => {
                let u = last.session.stored;
                let old = t.wish_places[id];
                let new = u.wish_places[id];
                &&& t.wish_places.dom().contains(id)
                &&& old.user_id == auth.user_id
                &&& u == (Tables { wish_places: u.wish_places, ..t })
                &&& u.wish_places == t.wish_places.insert(id, new)
                &&& new.id == id
                &&& new.user_id == auth.user_id
                &&& new.created_at == old.created_at
                &&& body.title matches Some(x) ==> new.title == x
                &&& body.title is None ==> new.title == old.title
                &&& body.description matches Some(x) ==> new.description == Some(x)
                &&& body.description is None ==> new.description == old.description
                &&& body.location matches Some(x) ==> new.location == Some(x)
                &&& body.location is None ==> new.location == old.location
                &&& body.link matches Some(x) ==> new.link == Some(x)
                &&& body.link is None ==> new.link == old.link
                &&& body.status is None ==> new.status == old.status && new.visited_event_id
                    == old.visited_event_id
                &&& body.status matches Some(x) ==> {
                    &&& x is Active <==> new.status is Active
                    &&& x is Visited <==> new.status is Visited
                    &&& x is Archived <==> new.status is Archived
                    &&& x is Visited ==> new.visited_event_id == old.visited_event_id
                    &&& !(x is Visited) ==> new.visited_event_id is None
                }
                &&& shown.id == id
                &&& shown.user_id == auth.user_id
                &&& shown.title == new.title
                &&& shown.description == new.description
                &&& shown.location == new.location
                &&& shown.link == new.link
                &&& shown.visited_event_id == new.visited_event_id
                &&& new.status is Active ==> shown.status@ == "active"@
                &&& new.status is Visited ==> shown.status@ == "visited"@
                &&& new.status is Archived ==> shown.status@ == "archived"@
            },
            Step::Done(Err(why)) => last.session.stored == t,
            _ => false,
        },
{
    update_wish_place_runs(faults, n, t, auth.user_id, id, body, first, last);
}

/// Why changing a wish place is refused, when nothing fails: it is not one's own,
/// or nothing is given, or the title given is white space alone.
pub proof fn why_a_place_is_not_changed(
    n: nat,
    t: Tables,
    auth: AuthUser,
    id: Id,
    body: UpdateWishPlaceBody,
    first: Step<UpdateWishPlace, WishPlaceResponse>,
    last: Running<UpdateWishPlace>,
)
    requires
        t.keyed(),
        call_ensures(update_wish_place, (auth, id, body), first),
        runs(false, n, begun(first, t), last),
        last.step is Done,
    ensures
        ({
            let own = t.wish_places.dom().contains(id) && t.wish_places[id].user_id
                == auth.user_id;
            let nothing = body.title is None && body.description is None && body.location is None
                && body.link is None && body.status is None;
            let untitled = body.title is Some && forall|i: int|
                0 <= i < body.title->0@.len() ==> white_space(#[trigger] body.title->0@[i]);
            match last.step {
                Step::Done(Ok(_)) => own && !nothing && !untitled,
                Step::Done(Err(why)) => if !own {
                    why is WishPlaceMissing
                } else if nothing {
                    why is NothingToUpdate
                } else {
                    untitled && why is WishPlaceTitleEmpty
                },
                _ => false,
            }
        }),
{
    update_wish_place_runs(false, n, t, auth.user_id, id, body, first, last);
}

/// Marking a wish place as visited makes it visited at that event, keeps its other
/// fields, and changes nothing else. The place and the event must be one's own.
pub proof fn visiting_a_place_marks_it(
    faults: bool,
    n: nat,
    t: Tables,
    auth: AuthUser,
    id: Id,
    body: VisitWishPlaceBody,
    first: Step<VisitWishPlace, WishPlaceResponse>,
    last: Running<VisitWishPlace>,
)
    requires
        t.keyed(),
        call_ensures(visit_wish_place, (auth, id, body), first),
        runs(faults, n, begun(first, t), last),
        last.step is Done,
    ensures
        ({
            let own = t.wish_places.dom().contains(id) && t.wish_places[id].user_id
                == auth.user_id;
            let event = body.event_id;
            match last.step {
                Step::Done(Ok(shown)) => {
                    let u = last.session.stored;
                    let old = t.wish_places[id];
                    let new = u.wish_places[id];
                    &&& own
                    &&& t.events.dom().contains(event) && t.events[event].creator_id
                        == auth.user_id
                    &&& u == (Tables { wish_places: u.wish_places, ..t })
                    &&& u.wish_places == t.wish_places.insert(id, new)
                    &&& new.id == id
                    &&& new.user_id == auth.user_id
                    &&& new.title == old.title
                    &&& new.description == old.description
                    &&& new.location == old.location
                    &&& new.link == old.link
                    &&& new.created_at == old.created_at
                    &&& new.status is Visited
                    &&& new.visited_event_id == Some(event)
                    &&& shown.id == id
                    &&& shown.user_id == auth.user_id
                    &&& shown.title == old.title
                    &&& shown.description == old.description
                    &&& shown.location == old.location
                    &&& shown.link == old.link
                    &&& shown.status@ == "visited"@
                    &&& shown.visited_event_id == Some(event)
                },
                Step::Done(Err(why)) => {
                    &&& last.session.stored == t
                    &&& !faults ==> if !own {
                        why is WishPlaceMissing
                    } else if !t.events.dom().contains(event) {
                        why is EventNotFound
                    } else {
                        t.events[event].creator_id != auth.user_id && why is VisitForbidden
                    }
                },
                _ => false,
            }
        }),
{
    visit_wish_place_runs(faults, n, t, auth.user_id, id, body.event_id, first, last);
}

/// Archiving a wish place makes it archived, keeps its other fields, and changes
/// nothing else. The place must be one's own.
pub proof fn archiving_a_place_archives_it(
    faults: bool,
    n: nat,
    t: Tables,
    auth: AuthUser,
    id: Id,
    first: Step<DeleteWishPlace, StatusCode>,
    last: Running<DeleteWishPlace>,
)
    requires
        t.keyed(),
        call_ensures(delete_wish_place, (auth, id), first),
        runs(faults, n, begun(first, t), last),
        last.step is Done,
    ensures
        ({
            let own = t.wish_places.dom().contains(id) && t.wish_places[id].user_id
                == auth.user_id;
            match last.step {
                Step::Done(Ok(code)) => {
                    let u = last.session.stored;
                    let old = t.wish_places[id];
                    let new = u.wish_places[id];
                    &&& code is NoContent
                    &&& own
                    &&& u == (Tables { wish_places: u.wish_places, ..t })
                    &&& u.wish_places == t.wish_places.insert(id, new)
                    &&& new.id == id
                    &&& new.user_id == auth.user_id
                    &&& new.title == old.title
                    &&& new.description == old.description
                    &&& new.location == old.location
                    &&& new.link == old.link
                    &&& new.created_at == old.created_at
                    &&& new.status is Archived
                    &&& new.visited_event_id == old.visited_event_id
                },
                Step::Done(Err(why)) => {
                    &&& last.session.stored == t
                    &&& !faults ==> !own && why is WishPlaceMissing
                },
                _ => false,
            }
        }),
{
    delete_wish_place_runs(faults, n, t, auth.user_id, id, first, last);
}

/// A place that is changed to archived has the same status as one that is
/// archived.
pub proof fn archiving_by_either_request_is_the_same(
    n: nat,
    k: nat,
    t: Tables,
    auth: AuthUser,
    id: Id,
    body: UpdateWishPlaceBody,
    first: Step<UpdateWishPlace, WishPlaceResponse>,
    last: Running<UpdateWishPlace>,
    other_first: Step<DeleteWishPlace, StatusCode>,
    other_last: Running<DeleteWishPlace>,
)
    requires
        t.keyed(),
        body.status == Some(WishPlaceStatusDto::Archived),
        call_ensures(update_wish_place, (auth, id, body), first),
        runs(false, n, begun(first, t), last),
        last.step matches Step::Done(Ok(_)),
        call_ensures(delete_wish_place, (auth, id), other_first),
        runs(false, k, begun(other_first, t), other_last),
        other_last.step is Done,
    ensures
        other_last.step matches Step::Done(Ok(_)),
        last.session.stored.wish_places[id].status
            == other_last.session.stored.wish_places[id].status,
{
    update_wish_place_runs(false, n, t, auth.user_id, id, body, first, last);
    delete_wish_place_runs(false, k, t, auth.user_id, id, other_first, other_last);
}

} // verus!
