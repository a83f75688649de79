//! What requests carry and what replies hold.

use crate::entities::Id;
use vstd::prelude::*;

verus! {

/// The user on whose behalf a request is made.
#[derive(Clone, Copy, Debug)]
pub struct AuthUser {
    pub user_id: Id,
}

#[derive(Debug)]
pub struct CreateEventBody {
    pub date: String,
    pub title: String,
    pub description: Option<String>,
    pub location: Option<String>,
    pub time: Option<String>,
    pub participant_ids: Vec<Id>,
    pub wish_place_id: Option<Id>,
}

#[derive(Debug)]
pub struct FinishEventBody {
    pub memory_image_base64: String,
}

/// Which of a user's events are listed.
#[derive(Clone, Copy, Debug, PartialEq, Eq, Structural)]
pub enum EventScope {
    Created,
    Invited,
    Upcoming,
    Past,
}

#[derive(Clone, Copy, Debug)]
pub struct EventScopeQuery {
    pub scope: Option<EventScope>,
}

#[derive(Debug)]
pub struct ParticipantResponse {
    pub user_id: Id,
    pub username: String,
    pub avatar_url: Option<String>,
    pub bio: Option<String>,
    pub role: String,
    pub response_status: String,
}

#[derive(Debug)]
pub struct EventResponse {
    pub id: Id,
    pub creator_id: Id,
    pub date: String,
    pub title: String,
    pub description: Option<String>,
    pub location: Option<String>,
    pub status: String,
    pub wish_place_id: Option<Id>,
    pub memory_image_base64: Option<String>,
    pub created_at: String,
    pub participants: Vec<ParticipantResponse>,
}

#[derive(Clone, Copy, Debug)]
pub struct UserAvailabilityResponse {
    pub is_available: bool,
}

#[derive(Debug)]
pub struct AvailableFriendsResponse {
    pub available_friends: Vec<UserDTO>,
}

#[derive(Debug)]
pub struct UserDTO {
    pub id: Id,
    pub username: String,
    pub avatar_url: Option<String>,
    pub bio: Option<String>,
}

#[derive(Clone, Copy, Debug)]
pub struct FriendIdBody {
    pub friend_id: Id,
}

#[derive(Debug)]
pub struct IsBusyRequest {
    pub id: Id,
    pub date: String,
}

#[derive(Debug)]
pub struct CalendarQuery {
    pub from: String,
    pub to: String,
}

#[derive(Debug)]
pub struct BusydayResponse {
    pub id: Id,
    pub user_id: Id,
    pub date: String,
    pub event_id: Option<Id>,
}

#[derive(Debug)]
pub struct PendingInviteResponse {
    pub event_id: Id,
    pub date: String,
}

#[derive(Debug)]
pub struct CalendarResponse {
    pub from: String,
    pub to: String,
    pub busy_days: Vec<BusydayResponse>,
    pub pending_invites: Vec<PendingInviteResponse>,
    pub past_events: Vec<String>,
}

#[derive(Debug)]
pub struct UserResponse {
    pub id: Id,
    pub username: String,
    pub avatar_url: Option<String>,
    pub bio: Option<String>,
}

#[derive(Debug)]
pub struct UpdateUserRequestBody {
    pub username: Option<String>,
    pub avatar_url: Option<String>,
    pub bio: Option<String>,
}

#[derive(Debug)]
pub struct UserNameSearchQuery {
    pub username: Option<String>,
}

#[derive(Clone, Copy, Debug, PartialEq, Eq, Structural)]
pub enum WishPlaceStatusDto {
    Active,
    Visited,
    Archived,
}

#[derive(Debug)]
pub struct CreateWishPlaceBody {
    pub title: String,
    pub description: Option<String>,
    pub location: Option<String>,
    pub link: Option<String>,
}

#[derive(Debug)]
pub struct UpdateWishPlaceBody {
    pub title: Option<String>,
    pub description: Option<String>,
    pub location: Option<String>,
    pub link: Option<String>,
    pub status: Option<WishPlaceStatusDto>,
}

#[derive(Clone, Copy, Debug)]
pub struct VisitWishPlaceBody {
    pub event_id: Id,
}

#[derive(Clone, Copy, Debug)]
pub struct WishPlaceQuery {
    pub user_id: Id,
}

#[derive(Debug)]
pub struct WishPlaceResponse {
    pub id: Id,
    pub user_id: Id,
    pub title: String,
    pub description: Option<String>,
    pub location: Option<String>,
    pub link: Option<String>,
    pub status: String,
    pub visited_event_id: Option<Id>,
    pub created_at: String,
}

} // verus!
