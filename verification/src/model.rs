//! What the database does, as far as the requests depend on it.
//!
//! Nothing here is executed: it says what the answers of a database are that
//! holds given tables and that nobody else writes to meanwhile, so that what a
//! whole request does to the tables can be stated.

use crate::entities::{
    BusydayRow, EventRow, FriendshipRow, Id, Row, UserEventRow, UserRow, WishPlaceRow,
};
use crate::machine::{Machine, Step};
use crate::store::{
    Cond, EventChanges, NewBusyday, NewEvent, NewFriendship, NewUserEvent, NewWishPlace, Order,
    Reply, Request, Test, UserChanges, WishPlaceChanges,
};
use vstd::prelude::*;

verus! {

/// The tables of the database, each by primary key.
#[verifier::ext_equal]
pub struct Tables {
    pub users: Map<Id, UserRow>,
    pub friendships: Map<Id, FriendshipRow>,
    pub events: Map<Id, EventRow>,
    pub user_events: Map<Id, UserEventRow>,
    pub busydays: Map<Id, BusydayRow>,
    pub wish_places: Map<Id, WishPlaceRow>,
}

/// A table holds finitely many rows, each under its own key.
pub open spec fn keyed<R: Row>(table: Map<Id, R>) -> bool {
    &&& table.dom().finite()
    &&& forall|k: Id| #[trigger] table.dom().contains(k) ==> table[k].key() == k
}

impl Tables {
    pub open spec fn keyed(self) -> bool {
        &&& keyed(self.users)
        &&& keyed(self.friendships)
        &&& keyed(self.events)
        &&& keyed(self.user_events)
        &&& keyed(self.busydays)
        &&& keyed(self.wish_places)
    }
}

/// One row of a table that passes, or none if none does.
pub open spec fn finds<R: Row>(
    table: Map<Id, R>,
    passes: spec_fn(R) -> bool,
    found: Option<R>,
) -> bool {
    match found {
        Some(row) => {
            &&& table.dom().contains(row.key())
            &&& table[row.key()] == row
            &&& passes(row)
        },
        None => forall|k: Id| #[trigger] table.dom().contains(k) ==> !passes(table[k]),
    }
}

/// The rows of a table that pass, each once.
pub open spec fn lists<R: Row>(
    table: Map<Id, R>,
    passes: spec_fn(R) -> bool,
    rows: Seq<R>,
) -> bool {
    &&& forall|i: int|
        0 <= i < rows.len() ==> {
            &&& table.dom().contains((#[trigger] rows[i]).key())
            &&& table[rows[i].key()] == rows[i]
            &&& passes(rows[i])
        }
    &&& forall|i: int, j: int|
        0 <= i < j < rows.len() ==> (#[trigger] rows[i]).key() != (#[trigger] rows[j]).key()
    &&& forall|k: Id| #[trigger]
        table.dom().contains(k) && passes(table[k]) ==> exists|i: int|
            0 <= i < rows.len() && (#[trigger] rows[i]) == table[k]
}

/// The keys of the rows that pass.
pub open spec fn matching<R>(table: Map<Id, R>, passes: spec_fn(R) -> bool) -> Set<Id> {
    table.dom().filter(|k: Id| passes(table[k]))
}

/// A table without the rows that pass.
pub open spec fn without<R>(table: Map<Id, R>, passes: spec_fn(R) -> bool) -> Map<Id, R> {
    table.remove_keys(matching(table, passes))
}

/// The rows that a condition lets through.
pub open spec fn through<T: Test>(cond: Cond<T>) -> spec_fn(T::Row) -> bool {
    |row: T::Row| cond.admits(row)
}

pub open spec fn events_in_order(rows: Seq<EventRow>, order: Order) -> bool {
    forall|i: int, j: int|
        #![trigger rows[i], rows[j]]
        0 <= i < j < rows.len() ==> match order {
            Order::Unspecified => true,
            Order::Ascending => rows[i].date.le(rows[j].date),
            Order::Descending => rows[j].date.le(rows[i].date),
        }
}

pub open spec fn parts_in_order(rows: Seq<UserEventRow>, order: Order) -> bool {
    forall|i: int, j: int|
        #![trigger rows[i], rows[j]]
        0 <= i < j < rows.len() ==> match order {
            Order::Unspecified => true,
            Order::Ascending => rows[i].user_id <= rows[j].user_id,
            Order::Descending => rows[i].user_id >= rows[j].user_id,
        }
}

pub open spec fn busydays_in_order(rows: Seq<BusydayRow>, order: Order) -> bool {
    forall|i: int, j: int|
        #![trigger rows[i], rows[j]]
        0 <= i < j < rows.len() ==> match order {
            Order::Unspecified => true,
            Order::Ascending => rows[i].date.le(rows[j].date),
            Order::Descending => rows[j].date.le(rows[i].date),
        }
}

pub open spec fn places_in_order(rows: Seq<WishPlaceRow>, order: Order) -> bool {
    forall|i: int, j: int|
        #![trigger rows[i], rows[j]]
        0 <= i < j < rows.len() ==> match order {
            Order::Unspecified => true,
            Order::Ascending => rows[i].created_at.le(rows[j].created_at),
            Order::Descending => rows[j].created_at.le(rows[i].created_at),
        }
}

impl NewFriendship {
    /// `row` is this friendship, stored.
    pub open spec fn stored_as(self, row: FriendshipRow) -> bool {
        &&& row.user_id == self.user_id
        &&& row.friend_id == self.friend_id
        &&& row.status == self.status
    }
}

impl NewEvent {
    /// `row` is this event, stored.
    pub open spec fn stored_as(self, row: EventRow) -> bool {
        &&& row.creator_id == self.creator_id
        &&& row.date == self.date
        &&& row.title == self.title
        &&& row.description == self.description
        &&& row.location == self.location
        &&& row.status == self.status
        &&& row.wish_place_id == self.wish_place_id
        &&& row.memory_image_base64 == self.memory_image_base64
    }
}

impl NewUserEvent {
    /// `row` is this part in an event, stored.
    pub open spec fn stored_as(self, row: UserEventRow) -> bool {
        &&& row.event_id == self.event_id
        &&& row.user_id == self.user_id
        &&& row.role == self.role
        &&& row.response_status == self.response_status
    }
}

impl NewBusyday {
    /// `row` is this busy day, stored.
    pub open spec fn stored_as(self, row: BusydayRow) -> bool {
        &&& row.user_id == self.user_id
        &&& row.date == self.date
        &&& row.event_id == self.event_id
    }
}

impl NewWishPlace {
    /// `row` is this wish place, stored.
    pub open spec fn stored_as(self, row: WishPlaceRow) -> bool {
        &&& row.user_id == self.user_id
        &&& row.title == self.title
        &&& row.description == self.description
        &&& row.location == self.location
        &&& row.link == self.link
        &&& row.status == self.status
        &&& row.visited_event_id == self.visited_event_id
    }
}

impl UserChanges {
    pub open spec fn made_to(self, row: UserRow) -> UserRow {
        UserRow {
            username: if self.username is Some { self.username->0 } else { row.username },
            avatar_url: if self.avatar_url is Some { self.avatar_url } else { row.avatar_url },
            bio: if self.bio is Some { self.bio } else { row.bio },
            ..row
        }
    }
}

impl EventChanges {
    pub open spec fn made_to(self, row: EventRow) -> EventRow {
        EventRow {
            status: if self.status is Some { self.status->0 } else { row.status },
            memory_image_base64: if self.memory_image_base64 is Some {
                self.memory_image_base64
            } else {
                row.memory_image_base64
            },
            ..row
        }
    }
}

impl WishPlaceChanges {
    pub open spec fn made_to(self, row: WishPlaceRow) -> WishPlaceRow {
        WishPlaceRow {
            title: if self.title is Some { self.title->0 } else { row.title },
            description: if self.description is Some { self.description } else { row.description },
            location: if self.location is Some { self.location } else { row.location },
            link: if self.link is Some { self.link } else { row.link },
            status: if self.status is Some { self.status->0 } else { row.status },
            visited_event_id: if self.visited_event_id is Some {
                self.visited_event_id->0
            } else {
                row.visited_event_id
            },
            ..row
        }
    }
}

/// A table with a row more, under a key that was free.
pub open spec fn gains<R: Row>(before: Map<Id, R>, row: R, after: Map<Id, R>) -> bool {
    &&& !before.dom().contains(row.key())
    &&& after == before.insert(row.key(), row)
}

/// A table with one row more for each of `new`, under keys that were free.
pub open spec fn gains_parts(
    before: Map<Id, UserEventRow>,
    new: Seq<NewUserEvent>,
    after: Map<Id, UserEventRow>,
) -> bool {
    exists|keys: Seq<Id>| #[trigger] gains_parts_at(before, new, keys, after)
}

/// A table with one row more for each of `new`, under the free keys `keys`.
pub open spec fn gains_parts_at(
    before: Map<Id, UserEventRow>,
    new: Seq<NewUserEvent>,
    keys: Seq<Id>,
    after: Map<Id, UserEventRow>,
) -> bool {
    &&& keys.len() == new.len()
    &&& keys.no_duplicates()
    &&& after.dom() == before.dom().union(keys.to_set())
    &&& forall|k: Id| #[trigger] before.dom().contains(k) ==> after[k] == before[k]
    &&& forall|i: int|
        0 <= i < keys.len() ==> {
            &&& !before.dom().contains(#[trigger] keys[i])
            &&& after[keys[i]].id == keys[i]
            &&& new[i].stored_as(after[keys[i]])
        }
}

/// A connection to the database: the tables as they are stored, and those of
/// the transaction that is open, if one is.
#[verifier::ext_equal]
pub struct Session {
    pub stored: Tables,
    pub open: Option<Tables>,
}

impl Session {
    /// A connection without a transaction.
    pub open spec fn to(tables: Tables) -> Session {
        Session { stored: tables, open: None }
    }

    /// The tables that requests see.
    pub open spec fn seen(self) -> Tables {
        match self.open {
            Some(tables) => tables,
            None => self.stored,
        }
    }

    /// The session once what it sees has become `tables`.
    pub open spec fn with(self, tables: Tables) -> Session {
        match self.open {
            Some(_) => Session { stored: self.stored, open: Some(tables) },
            None => Session { stored: tables, open: None },
        }
    }
}

/// A request carried out: its answer, and the tables after it.
pub open spec fn carried_out(t: Tables, request: Request, reply: Reply, u: Tables) -> bool {
    match request {
        Request::Begin | Request::Commit => false,
        Request::OneUser(c) => u == t && (reply matches Reply::User(found) && finds(
            t.users,
            through(c),
            found,
        )),
        Request::OneFriendship(c) => u == t && (reply matches Reply::Friendship(found) && finds(
            t.friendships,
            through(c),
            found,
        )),
        Request::OneEvent(c) => u == t && (reply matches Reply::Event(found) && finds(
            t.events,
            through(c),
            found,
        )),
        Request::OneUserEvent(c) => u == t && (reply matches Reply::UserEvent(found) && finds(
            t.user_events,
            through(c),
            found,
        )),
        Request::OneBusyday(c) => u == t && (reply matches Reply::Busyday(found) && finds(
            t.busydays,
            through(c),
            found,
        )),
        Request::OneWishPlace(c) => u == t && (reply matches Reply::WishPlace(found) && finds(
            t.wish_places,
            through(c),
            found,
        )),
        Request::AllUsers(c, _) => u == t && (reply matches Reply::Users(rows) && lists(
            t.users,
            through(c),
            rows@,
        )),
        Request::AllFriendships(c) => u == t && (reply matches Reply::Friendships(rows) && lists(
            t.friendships,
            through(c),
            rows@,
        )),
        Request::AllEvents(c, order) => u == t && (reply matches Reply::Events(rows) && lists(
            t.events,
            through(c),
            rows@,
        ) && events_in_order(rows@, order)),
        Request::AllUserEvents(c, order) => u == t && (reply matches Reply::UserEvents(rows)
            && lists(t.user_events, through(c), rows@) && parts_in_order(rows@, order)),
        Request::AllBusydays(c, order) => u == t && (reply matches Reply::Busydays(rows) && lists(
            t.busydays,
            through(c),
            rows@,
        ) && busydays_in_order(rows@, order)),
        Request::AllWishPlaces(c, order) => u == t && (reply matches Reply::WishPlaces(rows)
            && lists(t.wish_places, through(c), rows@) && places_in_order(rows@, order)),
        Request::CountUserEvents(c) => u == t && (reply matches Reply::Count(n) && n == matching(
            t.user_events,
            through(c),
        ).len()),
        Request::InsertFriendship(new) => {
            &&& reply is Done
            &&& exists|row: FriendshipRow|
                #![trigger new.stored_as(row)]
                new.stored_as(row) && gains(t.friendships, row, u.friendships)
            &&& u == (Tables { friendships: u.friendships, ..t })
        },
        Request::InsertEvent(new) => {
            &&& reply matches Reply::StoredEvent(row)
            &&& new.stored_as(row)
            &&& gains(t.events, row, u.events)
            &&& u == (Tables { events: u.events, ..t })
        },
        Request::InsertUserEvent(new) => {
            &&& reply is Done
            &&& exists|row: UserEventRow|
                #![trigger new.stored_as(row)]
                new.stored_as(row) && gains(t.user_events, row, u.user_events)
            &&& u == (Tables { user_events: u.user_events, ..t })
        },
        Request::InsertUserEvents(new) => {
            &&& reply is Done
            &&& gains_parts(t.user_events, new@, u.user_events)
            &&& u == (Tables { user_events: u.user_events, ..t })
        },
        Request::InsertBusyday(new) => {
            &&& reply is Done
            &&& exists|row: BusydayRow|
                #![trigger new.stored_as(row)]
                new.stored_as(row) && gains(t.busydays, row, u.busydays)
            &&& u == (Tables { busydays: u.busydays, ..t })
        },
        Request::InsertWishPlace(new) => {
            &&& reply matches Reply::StoredWishPlace(row)
            &&& new.stored_as(row)
            &&& gains(t.wish_places, row, u.wish_places)
            &&& u == (Tables { wish_places: u.wish_places, ..t })
        },
        Request::UpdateUser(id, changes) => {
            &&& t.users.dom().contains(id)
            &&& reply == Reply::StoredUser(changes.made_to(t.users[id]))
            &&& u == (Tables { users: t.users.insert(id, changes.made_to(t.users[id])), ..t })
        },
        Request::UpdateFriendship(id, status) => {
            &&& t.friendships.dom().contains(id)
            &&& reply is Done
            &&& u == (Tables {
                friendships: t.friendships.insert(
                    id,
                    FriendshipRow { status, ..t.friendships[id] },
                ),
                ..t
            })
        },
        Request::UpdateEvent(id, changes) => {
            &&& t.events.dom().contains(id)
            &&& reply is Done
            &&& u == (Tables { events: t.events.insert(id, changes.made_to(t.events[id])), ..t })
        },
        Request::UpdateUserEvent(id, response_status) => {
            &&& t.user_events.dom().contains(id)
            &&& reply is Done
            &&& u == (Tables {
                user_events: t.user_events.insert(
                    id,
                    UserEventRow { response_status, ..t.user_events[id] },
                ),
                ..t
            })
        },
        Request::UpdateWishPlace(id, changes) => {
            &&& t.wish_places.dom().contains(id)
            &&& reply == Reply::StoredWishPlace(changes.made_to(t.wish_places[id]))
            &&& u == (Tables {
                wish_places: t.wish_places.insert(id, changes.made_to(t.wish_places[id])),
                ..t
            })
        },
        Request::DeleteFriendship(id) => reply is Done && u == (Tables {
            friendships: t.friendships.remove(id),
            ..t
        }),
        Request::DeleteFriendships(c) => {
            &&& reply matches Reply::Count(n)
            &&& n == matching(t.friendships, through(c)).len()
            &&& u == (Tables { friendships: without(t.friendships, through(c)), ..t })
        },
        Request::DeleteEvent(id) => reply is Done && u == (Tables {
            events: t.events.remove(id),
            ..t
        }),
        Request::DeleteUserEvents(c) => {
            &&& reply matches Reply::Count(n)
            &&& n == matching(t.user_events, through(c)).len()
            &&& u == (Tables { user_events: without(t.user_events, through(c)), ..t })
        },
        Request::DeleteBusydays(c) => {
            &&& reply matches Reply::Count(n)
            &&& n == matching(t.busydays, through(c)).len()
            &&& u == (Tables { busydays: without(t.busydays, through(c)), ..t })
        },
    }
}

/// One exchange over a connection. Any request may fail; one that does leaves
/// no trace.
pub open spec fn answers(s: Session, request: Request, reply: Reply, after: Session) -> bool {
    ||| reply is Fault && after == s
    ||| request is Begin && reply is Done && s.open is None && after == Session {
        stored: s.stored,
        open: Some(s.stored),
    }
    ||| request is Commit && reply is Done && s.open is Some && after == Session::to(s.seen())
    ||| exists|u: Tables| #[trigger]
        carried_out(s.seen(), request, reply, u) && after == s.with(u)
}

/// A request at a step, and the connection that it uses.
#[verifier::ext_equal]
pub struct Running<M: Machine> {
    pub step: Step<M, M::Out>,
    pub session: Session,
}

/// One exchange takes the request from `a` to `b`.
pub open spec fn exchange<M: Machine>(
    faults: bool,
    a: Running<M>,
    reply: Reply,
    b: Running<M>,
) -> bool {
    &&& a.step matches Step::Ask(m, request)
    &&& answers(a.session, request, reply, b.session)
    &&& m.next(reply, b.step)
    &&& b.step matches Step::Ask(n, asked) ==> n.asking(asked)
    &&& reply is Fault ==> faults
}

/// `n` exchanges take the request from `a` to `b`. Unless `faults`, none of
/// them fails.
pub open spec fn runs<M: Machine>(faults: bool, n: nat, a: Running<M>, b: Running<M>) -> bool
    decreases n,
{
    if n == 0 {
        a == b
    } else {
        exists|c: Running<M>, reply: Reply|
            #![trigger exchange(faults, c, reply, b)]
            runs(faults, (n - 1) as nat, a, c) && exchange(faults, c, reply, b)
    }
}

/// A request that has been begun, with a connection to `tables`.
pub open spec fn begun<M: Machine>(step: Step<M, M::Out>, tables: Tables) -> Running<M> {
    Running { step, session: Session::to(tables) }
}

/// What holds at the beginning of a run and is kept by every exchange holds at
/// its end.
pub proof fn runs_keep<M: Machine>(
    faults: bool,
    n: nat,
    a: Running<M>,
    b: Running<M>,
    kept: spec_fn(Running<M>) -> bool,
)
    requires
        runs(faults, n, a, b),
        kept(a),
        forall|c: Running<M>, reply: Reply, d: Running<M>|
            kept(c) && #[trigger] exchange(faults, c, reply, d) ==> kept(d),
    ensures
        kept(b),
    decreases n,
{
    if n > 0 {
        let (c, reply) = choose|c: Running<M>, reply: Reply|
            #![trigger exchange(faults, c, reply, b)]
            runs(faults, (n - 1) as nat, a, c) && exchange(faults, c, reply, b);
        runs_keep(faults, (n - 1) as nat, a, c, kept);
    }
}

} // verus!
