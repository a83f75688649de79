//! What can be asked of the database, and what it answers.

use crate::entities::{
    BusydayRow, EventRow, EventStatus, FriendshipRow, FriendshipStatus, Id, UserEventResponse,
    UserEventRole, UserEventRow, UserRow, WishPlaceRow, WishPlaceStatus,
};
use crate::pattern::like;
use crate::time::Date;
use vstd::prelude::*;

verus! {

/// A test on one column of a table.
pub trait Test: Sized {
    type Row;

    /// The rows that pass.
    spec fn holds(self, row: Self::Row) -> bool;
}

/// A condition on the rows of a table.
#[derive(Debug)]
pub enum Cond<T> {
    Is(T),
    All(Box<Cond<T>>, Box<Cond<T>>),
    Any(Box<Cond<T>>, Box<Cond<T>>),
}

impl<T: Test> Cond<T> {
    /// The rows that the condition lets through.
    pub open spec fn admits(self, row: T::Row) -> bool
        decreases self,
    {
        match self {
            Cond::Is(t) => t.holds(row),
            Cond::All(a, b) => a.admits(row) && b.admits(row),
            Cond::Any(a, b) => a.admits(row) || b.admits(row),
        }
    }

    /// The condition lets through the rows of `p`, and no others.
    pub open spec fn means(self, p: spec_fn(T::Row) -> bool) -> bool {
        forall|row: T::Row| #[trigger] self.admits(row) == p(row)
    }

    pub fn is(t: T) -> (r: Cond<T>)
        ensures
            forall|row: T::Row| #[trigger] r.admits(row) == t.holds(row),
    {
        Cond::Is(t)
    }

    pub fn and(self, other: Cond<T>) -> (r: Cond<T>)
        ensures
            forall|row: T::Row| #[trigger]
                r.admits(row) == (self.admits(row) && other.admits(row)),
    {
        Cond::All(Box::new(self), Box::new(other))
    }

    pub fn or(self, other: Cond<T>) -> (r: Cond<T>)
        ensures
            forall|row: T::Row| #[trigger]
                r.admits(row) == (self.admits(row) || other.admits(row)),
    {
        Cond::Any(Box::new(self), Box::new(other))
    }
}

#[derive(Debug)]
pub enum UserTest {
    Id(Id),
    IdIn(Vec<Id>),
    IdNotIn(Vec<Id>),
    /// SQL's `LIKE`, with this pattern.
    UsernameLike(String),
}

#[derive(Debug)]
pub enum FriendshipTest {
    UserId(Id),
    FriendId(Id),
    StatusIs(FriendshipStatus),
}

#[derive(Debug)]
pub enum EventTest {
    Id(Id),
    IdIn(Vec<Id>),
    CreatorId(Id),
    DateFrom(Date),
    DateUpTo(Date),
    DateBefore(Date),
    StatusIs(EventStatus),
    StatusIsNot(EventStatus),
}

#[derive(Debug)]
pub enum UserEventTest {
    EventId(Id),
    UserId(Id),
    RoleIs(UserEventRole),
    ResponseIs(UserEventResponse),
    ResponseIsNot(UserEventResponse),
}

#[derive(Debug)]
pub enum BusydayTest {
    UserId(Id),
    UserIdIn(Vec<Id>),
    DateIs(Date),
    DateFrom(Date),
    DateUpTo(Date),
    EventId(Id),
}

#[derive(Debug)]
pub enum WishPlaceTest {
    Id(Id),
    UserId(Id),
}

impl Test for UserTest {
    type Row = UserRow;

    open spec fn holds(self, row: UserRow) -> bool {
        match self {
            UserTest::Id(id) => row.id == id,
            UserTest::IdIn(ids) => ids@.contains(row.id),
            UserTest::IdNotIn(ids) => !ids@.contains(row.id),
            UserTest::UsernameLike(pattern) => like(pattern@, row.username@),
        }
    }
}

impl Test for FriendshipTest {
    type Row = FriendshipRow;

    open spec fn holds(self, row: FriendshipRow) -> bool {
        match self {
            FriendshipTest::UserId(id) => row.user_id == id,
            FriendshipTest::FriendId(id) => row.friend_id == id,
            FriendshipTest::StatusIs(status) => row.status == status,
        }
    }
}

impl Test for EventTest {
    type Row = EventRow;

    open spec fn holds(self, row: EventRow) -> bool {
        match self {
            EventTest::Id(id) => row.id == id,
            EventTest::IdIn(ids) => ids@.contains(row.id),
            EventTest::CreatorId(id) => row.creator_id == id,
            EventTest::DateFrom(day) => day.le(row.date),
            EventTest::DateUpTo(day) => row.date.le(day),
            EventTest::DateBefore(day) => row.date.lt(day),
            EventTest::StatusIs(status) => row.status == status,
            EventTest::StatusIsNot(status) => row.status != status,
        }
    }
}

impl Test for UserEventTest {
    type Row = UserEventRow;

    open spec fn holds(self, row: UserEventRow) -> bool {
        match self {
            UserEventTest::EventId(id) => row.event_id == id,
            UserEventTest::UserId(id) => row.user_id == id,
            UserEventTest::RoleIs(role) => row.role == role,
            UserEventTest::ResponseIs(response) => row.response_status == response,
            UserEventTest::ResponseIsNot(response) => row.response_status != response,
        }
    }
}

impl Test for BusydayTest {
    type Row = BusydayRow;

    open spec fn holds(self, row: BusydayRow) -> bool {
        match self {
            BusydayTest::UserId(id) => row.user_id == id,
            BusydayTest::UserIdIn(ids) => ids@.contains(row.user_id),
            BusydayTest::DateIs(day) => row.date == day,
            BusydayTest::DateFrom(day) => day.le(row.date),
            BusydayTest::DateUpTo(day) => row.date.le(day),
            BusydayTest::EventId(id) => row.event_id == Some(id),
        }
    }
}

impl Test for WishPlaceTest {
    type Row = WishPlaceRow;

    open spec fn holds(self, row: WishPlaceRow) -> bool {
        match self {
            WishPlaceTest::Id(id) => row.id == id,
            WishPlaceTest::UserId(id) => row.user_id == id,
        }
    }
}

/// The order in which rows are asked for. Each table has one column to order
/// by: users the username, events and busy days the date, parts in events the
/// user, wish places the time of creation.
#[derive(Clone, Copy, Debug, PartialEq, Eq, Structural)]
pub enum Order {
    Unspecified,
    Ascending,
    Descending,
}

#[derive(Debug)]
pub struct NewFriendship {
    pub user_id: Id,
    pub friend_id: Id,
    pub status: FriendshipStatus,
}

#[derive(Debug)]
pub struct NewEvent {
    pub creator_id: Id,
    pub date: Date,
    pub title: String,
    pub description: Option<String>,
    pub location: Option<String>,
    pub status: EventStatus,
    pub wish_place_id: Option<Id>,
    pub memory_image_base64: Option<String>,
}

#[derive(Clone, Copy, Debug)]
pub struct NewUserEvent {
    pub event_id: Id,
    pub user_id: Id,
    pub role: UserEventRole,
    pub response_status: UserEventResponse,
}

#[derive(Clone, Copy, Debug)]
pub struct NewBusyday {
    pub user_id: Id,
    pub date: Date,
    pub event_id: Option<Id>,
}

#[derive(Debug)]
pub struct NewWishPlace {
    pub user_id: Id,
    pub title: String,
    pub description: Option<String>,
    pub location: Option<String>,
    pub link: Option<String>,
    pub status: WishPlaceStatus,
    pub visited_event_id: Option<Id>,
}

/// The columns of a user to write; `None` leaves a column as it is.
#[derive(Debug)]
pub struct UserChanges {
    pub username: Option<String>,
    pub avatar_url: Option<String>,
    pub bio: Option<String>,
}

/// The columns of an event to write; `None` leaves a column as it is.
#[derive(Debug)]
pub struct EventChanges {
    pub status: Option<EventStatus>,
    pub memory_image_base64: Option<String>,
}

/// The columns of a wish place to write; `None` leaves a column as it is.
#[derive(Debug)]
pub struct WishPlaceChanges {
    pub title: Option<String>,
    pub description: Option<String>,
    pub location: Option<String>,
    pub link: Option<String>,
    pub status: Option<WishPlaceStatus>,
    pub visited_event_id: Option<Option<Id>>,
}

/// One exchange with the database. Between `Begin` and `Commit` every request
/// belongs to one transaction.
#[derive(Debug)]
pub enum Request {
    Begin,
    Commit,
    OneUser(Cond<UserTest>),
    OneFriendship(Cond<FriendshipTest>),
    OneEvent(Cond<EventTest>),
    OneUserEvent(Cond<UserEventTest>),
    OneBusyday(Cond<BusydayTest>),
    OneWishPlace(Cond<WishPlaceTest>),
    AllUsers(Cond<UserTest>, Order),
    AllFriendships(Cond<FriendshipTest>),
    AllEvents(Cond<EventTest>, Order),
    AllUserEvents(Cond<UserEventTest>, Order),
    AllBusydays(Cond<BusydayTest>, Order),
    AllWishPlaces(Cond<WishPlaceTest>, Order),
    CountUserEvents(Cond<UserEventTest>),
    InsertFriendship(NewFriendship),
    InsertEvent(NewEvent),
    InsertUserEvent(NewUserEvent),
    InsertUserEvents(Vec<NewUserEvent>),
    InsertBusyday(NewBusyday),
    InsertWishPlace(NewWishPlace),
    UpdateUser(Id, UserChanges),
    UpdateFriendship(Id, FriendshipStatus),
    UpdateEvent(Id, EventChanges),
    UpdateUserEvent(Id, UserEventResponse),
    UpdateWishPlace(Id, WishPlaceChanges),
    DeleteFriendship(Id),
    DeleteFriendships(Cond<FriendshipTest>),
    DeleteEvent(Id),
    DeleteUserEvents(Cond<UserEventTest>),
    DeleteBusydays(Cond<BusydayTest>),
}

/// What the database answers. `Fault` holds the text of its error.
#[derive(Debug)]
pub enum Reply {
    Done,
    Fault(String),
    User(Option<UserRow>),
    Friendship(Option<FriendshipRow>),
    Event(Option<EventRow>),
    UserEvent(Option<UserEventRow>),
    Busyday(Option<BusydayRow>),
    WishPlace(Option<WishPlaceRow>),
    Users(Vec<UserRow>),
    Friendships(Vec<FriendshipRow>),
    Events(Vec<EventRow>),
    UserEvents(Vec<UserEventRow>),
    Busydays(Vec<BusydayRow>),
    WishPlaces(Vec<WishPlaceRow>),
    Count(u64),
    StoredUser(UserRow),
    StoredEvent(EventRow),
    StoredWishPlace(WishPlaceRow),
}

} // verus!
