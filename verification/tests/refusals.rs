use friends::refusal::{Refusal, StatusCode};

#[test]
fn every_refusal_has_its_status_and_text() {
    check_all(&[
        (Refusal::Internal, StatusCode::InternalServerError, "Something went wrong. Please try again."),
        (Refusal::InvalidDate, StatusCode::BadRequest, "Invalid date format. Use YYYY-MM-DD."),
        (Refusal::StartAfterEnd, StatusCode::BadRequest, "Start date must be before or equal to end date."),
        (Refusal::EventTitleMissing, StatusCode::BadRequest, "Please enter an event title."),
        (Refusal::GuestNotFriend, StatusCode::Forbidden, "You can only invite accepted friends to events."),
        (Refusal::DayReserved, StatusCode::Conflict, "This date is already reserved."),
        (Refusal::GuestBusy, StatusCode::Conflict, "One or more participants are already busy on this date."),
        (Refusal::EventNotFound, StatusCode::NotFound, "Event not found."),
        (Refusal::EventMissing, StatusCode::NotFound, "event not found"),
        (Refusal::EventForbidden, StatusCode::Forbidden, "forbidden"),
        (Refusal::NotEventCreator, StatusCode::NotFound, "Event not found or you are not the creator."),
        (Refusal::EventClosed, StatusCode::Conflict, "This event has already been completed or canceled."),
        (Refusal::EventInFuture, StatusCode::Conflict, "You can only complete an event on or after the event date."),
        (Refusal::MemoryImageMissing, StatusCode::BadRequest, "Please add a memory image to complete the event."),
        (Refusal::EventCompleted, StatusCode::Conflict, "Completed events cannot be canceled."),
        (Refusal::NoPendingInvitation, StatusCode::NotFound, "You are not a pending participant in this event."),
        (Refusal::InvitationAnswered, StatusCode::Conflict, "You have already responded to this invitation."),
        (Refusal::NotParticipant, StatusCode::NotFound, "You are not a participant in this event."),
        (Refusal::BefriendSelf, StatusCode::BadRequest, "You cannot add yourself as a friend."),
        (Refusal::RemoveSelf, StatusCode::BadRequest, "You cannot remove yourself."),
        (Refusal::AcceptSelf, StatusCode::BadRequest, "You cannot accept your own request."),
        (Refusal::RejectSelf, StatusCode::BadRequest, "You cannot reject your own request."),
        (Refusal::FriendshipMissing, StatusCode::NotFound, "This friendship does not exist."),
        (Refusal::FriendRequestMissing, StatusCode::NotFound, "This friend request does not exist."),
        (Refusal::AvailabilityForbidden, StatusCode::Forbidden, "You can only check your own or accepted friend's availability."),
        (Refusal::CalendarForbidden, StatusCode::Forbidden, "You can only view your own or accepted friend's calendar."),
        (Refusal::OwnProfileUnavailable, StatusCode::InternalServerError, "Unable to retrieve your profile. Please try again."),
        (Refusal::OwnProfileMissing, StatusCode::NotFound, "Your profile could not be found."),
        (Refusal::OwnProfileNotUpdated, StatusCode::InternalServerError, "Failed to update profile. Please try again."),
        (Refusal::ProfileUnavailable, StatusCode::InternalServerError, "Unable to retrieve user profile. Please try again."),
        (Refusal::ProfileMissing, StatusCode::NotFound, "This user profile does not exist."),
        (Refusal::SearchTextMissing, StatusCode::BadRequest, "Please enter a username to search."),
        (Refusal::SearchFailed, StatusCode::InternalServerError, "Failed to search users. Please try again."),
        (Refusal::WishPlacesForbidden, StatusCode::Forbidden, "You can only view your own or accepted friend's wish places."),
        (Refusal::WishPlaceTitleMissing, StatusCode::BadRequest, "Please enter a title for the wish place."),
        (Refusal::WishPlaceMissing, StatusCode::NotFound, "Wish place not found or you are not the owner."),
        (Refusal::NothingToUpdate, StatusCode::BadRequest, "Please provide at least one field to update."),
        (Refusal::WishPlaceTitleEmpty, StatusCode::BadRequest, "Title cannot be empty."),
        (Refusal::VisitForbidden, StatusCode::Forbidden, "Only the event creator can mark a place as visited."),
    ]);
}

fn check_all(all: &[(Refusal, StatusCode, &str)]) {
    for (refusal, status, text) in all {
        assert_eq!(refusal.status(), *status);
        assert_eq!(refusal.message(), *text);
    }
}
