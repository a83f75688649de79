//! What the answers to common questions say of the tables.

use crate::controllers::event_controller::rules::{busy_on, event_by, event_of};
use crate::controllers::friends::accepted_between;
use crate::entities::{BusydayRow, EventRow, FriendshipRow, Id, Row};
use crate::model::{finds, keyed, matching, through, without, Tables};
use crate::store::{BusydayTest, Cond, EventTest, FriendshipTest};
use crate::time::{same_day, Date};
use vstd::prelude::*;

verus! {

/// Two users are accepted friends.
pub open spec fn are_friends(t: Tables, a: Id, b: Id) -> bool {
    exists|k: Id| #[trigger]
        t.friendships.dom().contains(k) && accepted_between(a, b)(t.friendships[k])
}

/// A user is taken on a day, given by year, month and day.
pub open spec fn is_taken(t: Tables, user: Id, day: (int, int, int)) -> bool {
    exists|k: Id| #[trigger]
        t.busydays.dom().contains(k) && t.busydays[k].user_id == user && t.busydays[k].date.ymd()
            == day
}

/// Two users are friends if a friendship is found.
pub proof fn friend_found(
    t: Tables,
    c: Cond<FriendshipTest>,
    found: Option<FriendshipRow>,
    a: Id,
    b: Id,
)
    requires
        c.means(accepted_between(a, b)),
        finds(t.friendships, through(c), found),
    ensures
        found is Some <==> are_friends(t, a, b),
{
    match found {
        Some(row) => {
            assert(c.admits(row));
        },
        None => {
            assert forall|k: Id| #[trigger] t.friendships.dom().contains(k) implies
                !accepted_between(a, b)(t.friendships[k]) by {
                assert(!c.admits(t.friendships[k]));
            }
        },
    }
}

/// A day is taken if a busy day is found.
pub proof fn busy_found(
    t: Tables,
    c: Cond<BusydayTest>,
    found: Option<BusydayRow>,
    user: Id,
    date: Date,
)
    requires
        c.means(busy_on(user, date)),
        finds(t.busydays, through(c), found),
    ensures
        found is Some <==> is_taken(t, user, date.ymd()),
{
    match found {
        Some(row) => {
            assert(c.admits(row));
        },
        None => {
            assert forall|k: Id| #[trigger] t.busydays.dom().contains(k) implies !(
            t.busydays[k].user_id == user && t.busydays[k].date.ymd() == date.ymd()) by {
                assert(!c.admits(t.busydays[k]));
                same_day(t.busydays[k].date, date);
            }
        },
    }
}

/// An event that exists is found, as it is stored.
pub proof fn event_found(t: Tables, c: Cond<EventTest>, found: Option<EventRow>, id: Id)
    requires
        keyed(t.events),
        c.means(event_of(id)),
        finds(t.events, through(c), found),
    ensures
        found is Some <==> t.events.dom().contains(id),
        found matches Some(event) ==> event == t.events[id],
{
    match found {
        Some(event) => {
            assert(c.admits(event));
        },
        None => {
            if t.events.dom().contains(id) {
                assert(c.admits(t.events[id]));
            }
        },
    }
}

/// An event that exists is found by its creator, as it is stored.
pub proof fn own_event_found(
    t: Tables,
    c: Cond<EventTest>,
    found: Option<EventRow>,
    id: Id,
    creator: Id,
)
    requires
        keyed(t.events),
        c.means(event_by(id, creator)),
        finds(t.events, through(c), found),
    ensures
        found is Some <==> t.events.dom().contains(id) && t.events[id].creator_id == creator,
        found matches Some(event) ==> event == t.events[id],
{
    match found {
        Some(event) => {
            assert(c.admits(event));
        },
        None => {
            if t.events.dom().contains(id) {
                assert(!c.admits(t.events[id]));
            }
        },
    }
}

/// Conditions that let through the same rows take away the same rows.
pub proof fn without_alike<R>(
    table: Map<Id, R>,
    p: spec_fn(R) -> bool,
    q: spec_fn(R) -> bool,
)
    requires
        forall|row: R| #[trigger] p(row) == q(row),
    ensures
        matching(table, p) == matching(table, q),
        without(table, p) == without(table, q),
{
    assert(matching(table, p) =~= matching(table, q));
}

/// A table without some of its rows is still a table.
pub proof fn without_is_keyed<R: Row>(table: Map<Id, R>, p: spec_fn(R) -> bool)
    requires
        keyed(table),
    ensures
        keyed(without(table, p)),
{
    assert(without(table, p).dom().subset_of(table.dom()));
    vstd::set_lib::lemma_set_subset_finite(table.dom(), without(table, p).dom());
}

} // verus!
