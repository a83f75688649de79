//! The ways in which a request is refused.

use vstd::prelude::*;

verus! {

/// The HTTP status of a reply.
#[derive(Clone, Copy, Debug, PartialEq, Eq, Structural)]
pub enum StatusCode {
    Created,
    NoContent,
    BadRequest,
    Forbidden,
    NotFound,
    Conflict,
    InternalServerError,
}

/// Why a request is refused.
#[derive(Clone, Copy, Debug, PartialEq, Eq, Structural)]
pub enum Refusal {
    /// The database failed.
    Internal,
    InvalidDate,
    StartAfterEnd,
    EventTitleMissing,
    GuestNotFriend,
    DayReserved,
    GuestBusy,
    EventNotFound,
    EventMissing,
    EventForbidden,
    NotEventCreator,
    EventClosed,
    EventInFuture,
    MemoryImageMissing,
    EventCompleted,
    NoPendingInvitation,
    InvitationAnswered,
    NotParticipant,
    BefriendSelf,
    RemoveSelf,
    AcceptSelf,
    RejectSelf,
    FriendshipMissing,
    FriendRequestMissing,
    AvailabilityForbidden,
    CalendarForbidden,
    OwnProfileUnavailable,
    OwnProfileMissing,
    OwnProfileNotUpdated,
    ProfileUnavailable,
    ProfileMissing,
    SearchTextMissing,
    SearchFailed,
    WishPlacesForbidden,
    WishPlaceTitleMissing,
    WishPlaceMissing,
    NothingToUpdate,
    WishPlaceTitleEmpty,
    VisitForbidden,
}

impl Refusal {
    pub open spec fn code(self) -> StatusCode {
        match self {
            Refusal::Internal
            | Refusal::OwnProfileUnavailable
            | Refusal::OwnProfileNotUpdated
            | Refusal::ProfileUnavailable
            | Refusal::SearchFailed => StatusCode::InternalServerError,
            Refusal::InvalidDate
            | Refusal::StartAfterEnd
            | Refusal::EventTitleMissing
            | Refusal::MemoryImageMissing
            | Refusal::BefriendSelf
            | Refusal::RemoveSelf
            | Refusal::AcceptSelf
            | Refusal::RejectSelf
            | Refusal::SearchTextMissing
            | Refusal::WishPlaceTitleMissing
            | Refusal::NothingToUpdate
            | Refusal::WishPlaceTitleEmpty => StatusCode::BadRequest,
            Refusal::GuestNotFriend
            | Refusal::EventForbidden
            | Refusal::AvailabilityForbidden
            | Refusal::CalendarForbidden
            | Refusal::WishPlacesForbidden
            | Refusal::VisitForbidden => StatusCode::Forbidden,
            Refusal::EventNotFound
            | Refusal::EventMissing
            | Refusal::NotEventCreator
            | Refusal::NoPendingInvitation
            | Refusal::NotParticipant
            | Refusal::FriendshipMissing
            | Refusal::FriendRequestMissing
            | Refusal::OwnProfileMissing
            | Refusal::ProfileMissing
            | Refusal::WishPlaceMissing => StatusCode::NotFound,
            Refusal::DayReserved
            | Refusal::GuestBusy
            | Refusal::InvitationAnswered
            | Refusal::EventClosed
            | Refusal::EventInFuture
            | Refusal::EventCompleted => StatusCode::Conflict,
        }
    }

    pub open spec fn text(self) -> Seq<char> {
        match self {
            Refusal::Internal => "Something went wrong. Please try again."@,
            Refusal::InvalidDate => "Invalid date format. Use YYYY-MM-DD."@,
            Refusal::StartAfterEnd => "Start date must be before or equal to end date."@,
            Refusal::EventTitleMissing => "Please enter an event title."@,
            Refusal::GuestNotFriend => "You can only invite accepted friends to events."@,
            Refusal::DayReserved => "This date is already reserved."@,
            Refusal::GuestBusy => "One or more participants are already busy on this date."@,
            Refusal::EventNotFound => "Event not found."@,
            Refusal::EventMissing => "event not found"@,
            Refusal::EventForbidden => "forbidden"@,
            Refusal::NotEventCreator => "Event not found or you are not the creator."@,
            Refusal::EventClosed => "This event has already been completed or canceled."@,
            Refusal::EventInFuture => "You can only complete an event on or after the event date."@,
            Refusal::MemoryImageMissing => "Please add a memory image to complete the event."@,
            Refusal::EventCompleted => "Completed events cannot be canceled."@,
            Refusal::NoPendingInvitation => "You are not a pending participant in this event."@,
            Refusal::InvitationAnswered => "You have already responded to this invitation."@,
            Refusal::NotParticipant => "You are not a participant in this event."@,
            Refusal::BefriendSelf => "You cannot add yourself as a friend."@,
            Refusal::RemoveSelf => "You cannot remove yourself."@,
            Refusal::AcceptSelf => "You cannot accept your own request."@,
            Refusal::RejectSelf => "You cannot reject your own request."@,
            Refusal::FriendshipMissing => "This friendship does not exist."@,
            Refusal::FriendRequestMissing => "This friend request does not exist."@,
            Refusal::AvailabilityForbidden =>
                "You can only check your own or accepted friend's availability."@,
            Refusal::CalendarForbidden =>
                "You can only view your own or accepted friend's calendar."@,
            Refusal::OwnProfileUnavailable => "Unable to retrieve your profile. Please try again."@,
            Refusal::OwnProfileMissing => "Your profile could not be found."@,
            Refusal::OwnProfileNotUpdated => "Failed to update profile. Please try again."@,
            Refusal::ProfileUnavailable => "Unable to retrieve user profile. Please try again."@,
            Refusal::ProfileMissing => "This user profile does not exist."@,
            Refusal::SearchTextMissing => "Please enter a username to search."@,
            Refusal::SearchFailed => "Failed to search users. Please try again."@,
            Refusal::WishPlacesForbidden =>
                "You can only view your own or accepted friend's wish places."@,
            Refusal::WishPlaceTitleMissing => "Please enter a title for the wish place."@,
            Refusal::WishPlaceMissing => "Wish place not found or you are not the owner."@,
            Refusal::NothingToUpdate => "Please provide at least one field to update."@,
            Refusal::WishPlaceTitleEmpty => "Title cannot be empty."@,
            Refusal::VisitForbidden => "Only the event creator can mark a place as visited."@,
        }
    }

    /// The HTTP status that the client gets.
    pub fn status(&self) -> (r: StatusCode)
        ensures
            r == self.code(),
    {
        match self {
            Refusal::Internal
            | Refusal::OwnProfileUnavailable
            | Refusal::OwnProfileNotUpdated
            | Refusal::ProfileUnavailable
            | Refusal::SearchFailed => StatusCode::InternalServerError,
            Refusal::InvalidDate
            | Refusal::StartAfterEnd
            | Refusal::EventTitleMissing
            | Refusal::MemoryImageMissing
            | Refusal::BefriendSelf
            | Refusal::RemoveSelf
            | Refusal::AcceptSelf
            | Refusal::RejectSelf
            | Refusal::SearchTextMissing
            | Refusal::WishPlaceTitleMissing
            | Refusal::NothingToUpdate
            | Refusal::WishPlaceTitleEmpty => StatusCode::BadRequest,
            Refusal::GuestNotFriend
            | Refusal::EventForbidden
            | Refusal::AvailabilityForbidden
            | Refusal::CalendarForbidden
            | Refusal::WishPlacesForbidden
            | Refusal::VisitForbidden => StatusCode::Forbidden,
            Refusal::EventNotFound
            | Refusal::EventMissing
            | Refusal::NotEventCreator
            | Refusal::NoPendingInvitation
            | Refusal::NotParticipant
            | Refusal::FriendshipMissing
            | Refusal::FriendRequestMissing
            | Refusal::OwnProfileMissing
            | Refusal::ProfileMissing
            | Refusal::WishPlaceMissing => StatusCode::NotFound,
            Refusal::DayReserved
            | Refusal::GuestBusy
            | Refusal::InvitationAnswered
            | Refusal::EventClosed
            | Refusal::EventInFuture
            | Refusal::EventCompleted => StatusCode::Conflict,
        }
    }

    /// The message that the client gets.
    pub fn message(&self) -> (r: String)
        ensures
            r@ == self.text(),
    {
        let s: &str = match self {
            Refusal::Internal => "Something went wrong. Please try again.",
            Refusal::InvalidDate => "Invalid date format. Use YYYY-MM-DD.",
            Refusal::StartAfterEnd => "Start date must be before or equal to end date.",
            Refusal::EventTitleMissing => "Please enter an event title.",
            Refusal::GuestNotFriend => "You can only invite accepted friends to events.",
            Refusal::DayReserved => "This date is already reserved.",
            Refusal::GuestBusy => "One or more participants are already busy on this date.",
            Refusal::EventNotFound => "Event not found.",
            Refusal::EventMissing => "event not found",
            Refusal::EventForbidden => "forbidden",
            Refusal::NotEventCreator => "Event not found or you are not the creator.",
            Refusal::EventClosed => "This event has already been completed or canceled.",
            Refusal::EventInFuture => "You can only complete an event on or after the event date.",
            Refusal::MemoryImageMissing => "Please add a memory image to complete the event.",
            Refusal::EventCompleted => "Completed events cannot be canceled.",
            Refusal::NoPendingInvitation => "You are not a pending participant in this event.",
            Refusal::InvitationAnswered => "You have already responded to this invitation.",
            Refusal::NotParticipant => "You are not a participant in this event.",
            Refusal::BefriendSelf => "You cannot add yourself as a friend.",
            Refusal::RemoveSelf => "You cannot remove yourself.",
            Refusal::AcceptSelf => "You cannot accept your own request.",
            Refusal::RejectSelf => "You cannot reject your own request.",
            Refusal::FriendshipMissing => "This friendship does not exist.",
            Refusal::FriendRequestMissing => "This friend request does not exist.",
            Refusal::AvailabilityForbidden =>
                "You can only check your own or accepted friend's availability.",
            Refusal::CalendarForbidden =>
                "You can only view your own or accepted friend's calendar.",
            Refusal::OwnProfileUnavailable => "Unable to retrieve your profile. Please try again.",
            Refusal::OwnProfileMissing => "Your profile could not be found.",
            Refusal::OwnProfileNotUpdated => "Failed to update profile. Please try again.",
            Refusal::ProfileUnavailable => "Unable to retrieve user profile. Please try again.",
            Refusal::ProfileMissing => "This user profile does not exist.",
            Refusal::SearchTextMissing => "Please enter a username to search.",
            Refusal::SearchFailed => "Failed to search users. Please try again.",
            Refusal::WishPlacesForbidden =>
                "You can only view your own or accepted friend's wish places.",
            Refusal::WishPlaceTitleMissing => "Please enter a title for the wish place.",
            Refusal::WishPlaceMissing => "Wish place not found or you are not the owner.",
            Refusal::NothingToUpdate => "Please provide at least one field to update.",
            Refusal::WishPlaceTitleEmpty => "Title cannot be empty.",
            Refusal::VisitForbidden => "Only the event creator can mark a place as visited.",
        };
        s.to_string()
    }
}

} // verus!
