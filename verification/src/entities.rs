//! The rows of the database, and the states that they can be in.

use crate::time::{Date, Timestamp};
use vstd::prelude::*;

verus! {

/// The identifier of a row: a UUID, as the number that its sixteen bytes spell
/// in big-endian order. The order of the numbers is the order of the UUIDs.
pub type Id = u128;

#[derive(Clone, Copy, Debug, PartialEq, Eq, Structural)]
pub enum FriendshipStatus {
    Pending,
    Accepted,
}

#[derive(Clone, Copy, Debug, PartialEq, Eq, Structural)]
pub enum EventStatus {
    Pending,
    Confirmed,
    Completed,
    Canceled,
}

#[derive(Clone, Copy, Debug, PartialEq, Eq, Structural)]
pub enum UserEventRole {
    Owner,
    Participant,
}

#[derive(Clone, Copy, Debug, PartialEq, Eq, Structural)]
pub enum UserEventResponse {
    Pending,
    Accepted,
    Declined,
}

#[derive(Clone, Copy, Debug, PartialEq, Eq, Structural)]
pub enum WishPlaceStatus {
    Active,
    Visited,
    Archived,
}

impl EventStatus {
    /// The name under which the status is shown.
    pub open spec fn text(self) -> Seq<char> {
        match self {
            EventStatus::Pending => "pending"@,
            EventStatus::Confirmed => "confirmed"@,
            EventStatus::Completed => "completed"@,
            EventStatus::Canceled => "canceled"@,
        }
    }

    /// Neither completed nor canceled.
    pub open spec fn open(self) -> bool {
        self is Pending || self is Confirmed
    }

    pub fn to_string(&self) -> (r: String)
        ensures
            r@ == self.text(),
    {
        match self {
            EventStatus::Pending => "pending".to_string(),
            EventStatus::Confirmed => "confirmed".to_string(),
            EventStatus::Completed => "completed".to_string(),
            EventStatus::Canceled => "canceled".to_string(),
        }
    }
}

impl UserEventRole {
    /// The name under which the role is shown.
    pub open spec fn text(self) -> Seq<char> {
        match self {
            UserEventRole::Owner => "owner"@,
            UserEventRole::Participant => "participant"@,
        }
    }

    pub fn to_string(&self) -> (r: String)
        ensures
            r@ == self.text(),
    {
        match self {
            UserEventRole::Owner => "owner".to_string(),
            UserEventRole::Participant => "participant".to_string(),
        }
    }
}

impl UserEventResponse {
    /// The name under which the response is shown.
    pub open spec fn text(self) -> Seq<char> {
        match self {
            UserEventResponse::Pending => "pending"@,
            UserEventResponse::Accepted => "accepted"@,
            UserEventResponse::Declined => "declined"@,
        }
    }

    pub fn to_string(&self) -> (r: String)
        ensures
            r@ == self.text(),
    {
        match self {
            UserEventResponse::Pending => "pending".to_string(),
            UserEventResponse::Accepted => "accepted".to_string(),
            UserEventResponse::Declined => "declined".to_string(),
        }
    }
}

impl WishPlaceStatus {
    /// The name under which the status is shown.
    pub open spec fn text(self) -> Seq<char> {
        match self {
            WishPlaceStatus::Active => "active"@,
            WishPlaceStatus::Visited => "visited"@,
            WishPlaceStatus::Archived => "archived"@,
        }
    }

    pub fn to_string(&self) -> (r: String)
        ensures
            r@ == self.text(),
    {
        match self {
            WishPlaceStatus::Active => "active".to_string(),
            WishPlaceStatus::Visited => "visited".to_string(),
            WishPlaceStatus::Archived => "archived".to_string(),
        }
    }
}

/// Only the response `Accepted` is shown as "accepted".
pub proof fn accepted_text(response: UserEventResponse)
    ensures
        response.text() == "accepted"@ <==> response is Accepted,
{
    reveal_strlit("pending");
    reveal_strlit("accepted");
    reveal_strlit("declined");
    assert("pending"@[0] == 'p');
    assert("declined"@[0] == 'd');
    assert("accepted"@[0] == 'a');
}

/// A user.
#[derive(Debug)]
pub struct UserRow {
    pub id: Id,
    pub username: String,
    pub avatar_url: Option<String>,
    pub bio: Option<String>,
}

/// A friendship that `user_id` offered to `friend_id`.
#[derive(Clone, Copy, Debug)]
pub struct FriendshipRow {
    pub id: Id,
    pub user_id: Id,
    pub friend_id: Id,
    pub status: FriendshipStatus,
}

/// An event on a single day.
#[derive(Debug)]
pub struct EventRow {
    pub id: Id,
    pub creator_id: Id,
    pub date: Date,
    pub title: String,
    pub description: Option<String>,
    pub location: Option<String>,
    pub status: EventStatus,
    pub wish_place_id: Option<Id>,
    pub memory_image_base64: Option<String>,
    pub created_at: Timestamp,
}

/// A user's part in an event.
#[derive(Clone, Copy, Debug)]
pub struct UserEventRow {
    pub id: Id,
    pub event_id: Id,
    pub user_id: Id,
    pub role: UserEventRole,
    pub response_status: UserEventResponse,
}

/// A day on which a user is busy, and the event that takes it.
#[derive(Clone, Copy, Debug)]
pub struct BusydayRow {
    pub id: Id,
    pub user_id: Id,
    pub date: Date,
    pub event_id: Option<Id>,
}

/// A place that a user would like to visit.
#[derive(Debug)]
pub struct WishPlaceRow {
    pub id: Id,
    pub user_id: Id,
    pub title: String,
    pub description: Option<String>,
    pub location: Option<String>,
    pub link: Option<String>,
    pub status: WishPlaceStatus,
    pub visited_event_id: Option<Id>,
    pub created_at: Timestamp,
}

/// A row with a primary key.
pub trait Row: Sized {
    spec fn key(self) -> Id;
}

impl Row for UserRow {
    open spec fn key(self) -> Id {
        self.id
    }
}

impl Row for FriendshipRow {
    open spec fn key(self) -> Id {
        self.id
    }
}

impl Row for EventRow {
    open spec fn key(self) -> Id {
        self.id
    }
}

impl Row for UserEventRow {
    open spec fn key(self) -> Id {
        self.id
    }
}

impl Row for BusydayRow {
    open spec fn key(self) -> Id {
        self.id
    }
}

impl Row for WishPlaceRow {
    open spec fn key(self) -> Id {
        self.id
    }
}

} // verus!
