//! What a failing database leads to.

use crate::controllers::calendar_controller::{BuildCalendar, GetCalendar, IsBusy};
use crate::controllers::event_controller::active::GetActiveEvents;
use crate::controllers::event_controller::availability::{
    CheckFriendsAvailability, CheckUserAvailability,
};
use crate::controllers::event_controller::cancel::CancelEvent;
use crate::controllers::event_controller::create::CreateEvent;
use crate::controllers::event_controller::finish::FinishEvent;
use crate::controllers::event_controller::list::ListEvents;
use crate::controllers::event_controller::load::{LoadEvent, LoadEvents, LoadParticipants};
use crate::controllers::event_controller::respond::{AcceptEvent, DeclineEvent};
use crate::controllers::event_controller::show::{EventAccess, GetEvent, GetEventParticipants};
use crate::controllers::friendship_controller::{
    AcceptFriendRequest, FriendRequest, ListPeople, RejectFriendRequest, RemoveFriend,
};
use crate::controllers::models::{
    AuthUser, AvailableFriendsResponse, CalendarResponse, EventResponse, ParticipantResponse,
    UserAvailabilityResponse, UserDTO, UserResponse, WishPlaceResponse,
};
use crate::controllers::users_controller::{
    get_me, get_user_by_id, GetUser, SearchUsers, UpdateMe,
};
use crate::controllers::wish_place_controller::{
    CreateWishPlace, DeleteWishPlace, GetWishPlaces, UpdateWishPlace, VisitWishPlace,
};
use crate::entities::Id;
use crate::machine::{Machine, Step};
use crate::refusal::StatusCode;
use crate::store::{Reply, Request};
use crate::text::occurs_in;
use vstd::prelude::*;

verus! {

/// If the database fails while listing wish places, the request is refused as a
/// failure of the service.
pub proof fn get_wish_places_meets_a_fault(
    m: GetWishPlaces,
    message: String,
    step: Step<GetWishPlaces, Vec<WishPlaceResponse>>,
)
    requires
        call_ensures(GetWishPlaces::resume, (m, Reply::Fault(message)), step),
    ensures
        step matches Step::Done(Err(why)) && why is Internal,
{
}

/// If the database fails while making a wish place, the request is refused as a
/// failure of the service.
pub proof fn create_wish_place_meets_a_fault(
    m: CreateWishPlace,
    message: String,
    step: Step<CreateWishPlace, (StatusCode, WishPlaceResponse)>,
)
    requires
        call_ensures(CreateWishPlace::resume, (m, Reply::Fault(message)), step),
    ensures
        step matches Step::Done(Err(why)) && why is Internal,
{
}

/// If the database fails while changing a wish place, the request is refused as a
/// failure of the service.
pub proof fn update_wish_place_meets_a_fault(
    m: UpdateWishPlace,
    message: String,
    step: Step<UpdateWishPlace, WishPlaceResponse>,
)
    requires
        call_ensures(UpdateWishPlace::resume, (m, Reply::Fault(message)), step),
    ensures
        step matches Step::Done(Err(why)) && why is Internal,
{
}

/// If the database fails while visiting a wish place, the request is refused as a
/// failure of the service.
pub proof fn visit_wish_place_meets_a_fault(
    m: VisitWishPlace,
    message: String,
    step: Step<VisitWishPlace, WishPlaceResponse>,
)
    requires
        call_ensures(VisitWishPlace::resume, (m, Reply::Fault(message)), step),
    ensures
        step matches Step::Done(Err(why)) && why is Internal,
{
}

/// If the database fails while archiving a wish place, the request is refused as a
/// failure of the service.
pub proof fn delete_wish_place_meets_a_fault(
    m: DeleteWishPlace,
    message: String,
    step: Step<DeleteWishPlace, StatusCode>,
)
    requires
        call_ensures(DeleteWishPlace::resume, (m, Reply::Fault(message)), step),
    ensures
        step matches Step::Done(Err(why)) && why is Internal,
{
}

/// If the database fails while declining an event, the request is refused as a
/// failure of the service.
pub proof fn decline_event_meets_a_fault(
    m: DeclineEvent,
    message: String,
    step: Step<DeclineEvent, StatusCode>,
)
    requires
        call_ensures(DeclineEvent::resume, (m, Reply::Fault(message)), step),
    ensures
        step matches Step::Done(Err(why)) && why is Internal,
{
}

/// If the database fails while canceling an event, the request is refused as a
/// failure of the service.
pub proof fn cancel_event_meets_a_fault(
    m: CancelEvent,
    message: String,
    step: Step<CancelEvent, StatusCode>,
)
    requires
        call_ensures(CancelEvent::resume, (m, Reply::Fault(message)), step),
    ensures
        step matches Step::Done(Err(why)) && why is Internal,
{
}

/// If the database fails while telling whether a user is free, the request is refused as a
/// failure of the service.
pub proof fn check_user_availability_meets_a_fault(
    m: CheckUserAvailability,
    message: String,
    step: Step<CheckUserAvailability, UserAvailabilityResponse>,
)
    requires
        call_ensures(CheckUserAvailability::resume, (m, Reply::Fault(message)), step),
    ensures
        step matches Step::Done(Err(why)) && why is Internal,
{
}

/// If the database fails while telling which friends are free, the request is refused as a
/// failure of the service.
pub proof fn check_friends_availability_meets_a_fault(
    m: CheckFriendsAvailability,
    message: String,
    step: Step<CheckFriendsAvailability, AvailableFriendsResponse>,
)
    requires
        call_ensures(CheckFriendsAvailability::resume, (m, Reply::Fault(message)), step),
    ensures
        step matches Step::Done(Err(why)) && why is Internal,
{
}

/// If the database fails while letting a user see an event, the request is refused as a
/// failure of the service.
pub proof fn event_access_meets_a_fault(
    m: EventAccess,
    message: String,
    step: Step<EventAccess, ()>,
)
    requires
        call_ensures(EventAccess::resume, (m, Reply::Fault(message)), step),
    ensures
        step matches Step::Done(Err(why)) && why is Internal,
{
}

/// If the database fails while listing people, the request is refused as a
/// failure of the service.
pub proof fn list_people_meets_a_fault(
    m: ListPeople,
    message: String,
    step: Step<ListPeople, Vec<UserDTO>>,
)
    requires
        call_ensures(ListPeople::resume, (m, Reply::Fault(message)), step),
    ensures
        step matches Step::Done(Err(why)) && why is Internal,
{
}

/// If the database fails while offering a friendship, the request is refused as a
/// failure of the service.
pub proof fn friend_request_meets_a_fault(
    m: FriendRequest,
    message: String,
    step: Step<FriendRequest, StatusCode>,
)
    requires
        call_ensures(FriendRequest::resume, (m, Reply::Fault(message)), step),
    ensures
        step matches Step::Done(Err(why)) && why is Internal,
{
}

/// If the database fails while ending a friendship, the request is refused as a
/// failure of the service.
pub proof fn remove_friend_meets_a_fault(
    m: RemoveFriend,
    message: String,
    step: Step<RemoveFriend, StatusCode>,
)
    requires
        call_ensures(RemoveFriend::resume, (m, Reply::Fault(message)), step),
    ensures
        step matches Step::Done(Err(why)) && why is Internal,
{
}

/// If the database fails while accepting a friendship, the request is refused as a
/// failure of the service.
pub proof fn accept_friend_request_meets_a_fault(
    m: AcceptFriendRequest,
    message: String,
    step: Step<AcceptFriendRequest, StatusCode>,
)
    requires
        call_ensures(AcceptFriendRequest::resume, (m, Reply::Fault(message)), step),
    ensures
        step matches Step::Done(Err(why)) && why is Internal,
{
}

/// If the database fails while rejecting a friendship, the request is refused as a
/// failure of the service.
pub proof fn reject_friend_request_meets_a_fault(
    m: RejectFriendRequest,
    message: String,
    step: Step<RejectFriendRequest, StatusCode>,
)
    requires
        call_ensures(RejectFriendRequest::resume, (m, Reply::Fault(message)), step),
    ensures
        step matches Step::Done(Err(why)) && why is Internal,
{
}

/// If the database fails while building a calendar, the request is refused as a
/// failure of the service.
pub proof fn build_calendar_meets_a_fault(
    m: BuildCalendar,
    message: String,
    step: Step<BuildCalendar, CalendarResponse>,
)
    requires
        call_ensures(BuildCalendar::resume, (m, Reply::Fault(message)), step),
    ensures
        step matches Step::Done(Err(why)) && why is Internal,
{
}

/// If the database fails while showing a calendar, the request is refused as a
/// failure of the service.
pub proof fn get_calendar_meets_a_fault(
    m: GetCalendar,
    message: String,
    step: Step<GetCalendar, CalendarResponse>,
)
    requires
        call_ensures(GetCalendar::resume, (m, Reply::Fault(message)), step),
    ensures
        step matches Step::Done(Err(why)) && why is Internal,
{
}

/// If the database fails while telling whether a day is taken, the request is refused as a
/// failure of the service.
pub proof fn is_busy_meets_a_fault(
    m: IsBusy,
    message: String,
    step: Step<IsBusy, bool>,
)
    requires
        call_ensures(IsBusy::resume, (m, Reply::Fault(message)), step),
    ensures
        step matches Step::Done(Err(why)) && why is Internal,
{
}

/// If the database fails while reading the people in an event, the request is refused as a
/// failure of the service; only a person who cannot be read is passed over.
pub proof fn load_participants_meets_a_fault(
    m: LoadParticipants,
    request: Request,
    message: String,
    step: Step<LoadParticipants, Vec<ParticipantResponse>>,
)
    requires
        m.asking(request),
        call_ensures(LoadParticipants::resume, (m, Reply::Fault(message)), step),
    ensures
        match request {
            Request::OneUser(_) => !(step matches Step::Done(Err(_))),
            _ => step matches Step::Done(Err(why)) && why is Internal,
        },
{
}

/// If the database fails while reading an event, the request is refused as a
/// failure of the service; only a person who cannot be read is passed over.
pub proof fn load_event_meets_a_fault(
    m: LoadEvent,
    request: Request,
    message: String,
    step: Step<LoadEvent, EventResponse>,
)
    requires
        m.asking(request),
        call_ensures(LoadEvent::resume, (m, Reply::Fault(message)), step),
    ensures
        match request {
            Request::OneUser(_) => !(step matches Step::Done(Err(_))),
            _ => step matches Step::Done(Err(why)) && why is Internal,
        },
{
}

/// If the database fails while reading events, the request is refused as a
/// failure of the service; only a person who cannot be read is passed over.
pub proof fn load_events_meets_a_fault(
    m: LoadEvents,
    request: Request,
    message: String,
    step: Step<LoadEvents, Vec<EventResponse>>,
)
    requires
        m.asking(request),
        call_ensures(LoadEvents::resume, (m, Reply::Fault(message)), step),
    ensures
        match request {
            Request::OneUser(_) => !(step matches Step::Done(Err(_))),
            _ => step matches Step::Done(Err(why)) && why is Internal,
        },
{
}

/// If the database fails while listing events, the request is refused as a
/// failure of the service; only a person who cannot be read is passed over.
pub proof fn list_events_meets_a_fault(
    m: ListEvents,
    request: Request,
    message: String,
    step: Step<ListEvents, Vec<EventResponse>>,
)
    requires
        m.asking(request),
        call_ensures(ListEvents::resume, (m, Reply::Fault(message)), step),
    ensures
        match request {
            Request::OneUser(_) => !(step matches Step::Done(Err(_))),
            _ => step matches Step::Done(Err(why)) && why is Internal,
        },
{
}

/// If the database fails while completing an event, the request is refused as a
/// failure of the service; only a person who cannot be read is passed over.
pub proof fn finish_event_meets_a_fault(
    m: FinishEvent,
    request: Request,
    message: String,
    step: Step<FinishEvent, EventResponse>,
)
    requires
        m.asking(request),
        call_ensures(FinishEvent::resume, (m, Reply::Fault(message)), step),
    ensures
        match request {
            Request::OneUser(_) => !(step matches Step::Done(Err(_))),
            _ => step matches Step::Done(Err(why)) && why is Internal,
        },
{
}

/// If the database fails while showing the people in an event, the request is refused as a
/// failure of the service; only a person who cannot be read is passed over.
pub proof fn get_event_participants_meets_a_fault(
    m: GetEventParticipants,
    request: Request,
    message: String,
    step: Step<GetEventParticipants, Vec<ParticipantResponse>>,
)
    requires
        m.asking(request),
        call_ensures(GetEventParticipants::resume, (m, Reply::Fault(message)), step),
    ensures
        match request {
            Request::OneUser(_) => !(step matches Step::Done(Err(_))),
            _ => step matches Step::Done(Err(why)) && why is Internal,
        },
{
}

/// If the database fails while listing the active events, the request is refused as a
/// failure of the service; only a person who cannot be read is passed over.
pub proof fn get_active_events_meets_a_fault(
    m: GetActiveEvents,
    request: Request,
    message: String,
    step: Step<GetActiveEvents, Vec<EventResponse>>,
)
    requires
        m.asking(request),
        call_ensures(GetActiveEvents::resume, (m, Reply::Fault(message)), step),
    ensures
        match request {
            Request::OneUser(_) => !(step matches Step::Done(Err(_))),
            _ => step matches Step::Done(Err(why)) && why is Internal,
        },
{
}

/// If the database fails while accepting an event, the request is refused as a
/// failure of the service, with two exceptions: a person who cannot be read is passed
/// over, and where the day cannot be taken because the database has it already, the day
/// is reserved.
pub proof fn accept_event_meets_a_fault(
    m: AcceptEvent,
    request: Request,
    message: String,
    step: Step<AcceptEvent, EventResponse>,
)
    requires
        m.asking(request),
        call_ensures(AcceptEvent::resume, (m, Reply::Fault(message)), step),
    ensures
        match request {
            Request::OneUser(_) => !(step matches Step::Done(Err(_))),
            Request::InsertBusyday(_) => step matches Step::Done(Err(why)) && if occurs_in(
                "unique"@,
                message@,
            ) || occurs_in("duplicate key"@, message@) {
                why is DayReserved
            } else {
                why is Internal
            },
            _ => step matches Step::Done(Err(why)) && why is Internal,
        },
{
}

/// If the database fails while making an event, the request is refused as a
/// failure of the service, with two exceptions: a person who cannot be read is passed
/// over, and where the day cannot be taken because the database has it already, the day
/// is reserved.
pub proof fn create_event_meets_a_fault(
    m: CreateEvent,
    request: Request,
    message: String,
    step: Step<CreateEvent, (StatusCode, EventResponse)>,
)
    requires
        m.asking(request),
        call_ensures(CreateEvent::resume, (m, Reply::Fault(message)), step),
    ensures
        match request {
            Request::OneUser(_) => !(step matches Step::Done(Err(_))),
            Request::InsertBusyday(_) => step matches Step::Done(Err(why)) && if occurs_in(
                "unique"@,
                message@,
            ) || occurs_in("duplicate key"@, message@) {
                why is DayReserved
            } else {
                why is Internal
            },
            _ => step matches Step::Done(Err(why)) && why is Internal,
        },
{
}

/// If the database fails while it is found out whether the user may see an event, the
/// request is refused as a failure of the service. An event that cannot be read after
/// that counts as one that does not exist; a person who cannot be read is passed over.
pub proof fn get_event_meets_a_fault(
    m: GetEvent,
    request: Request,
    message: String,
    step: Step<GetEvent, EventResponse>,
)
    requires
        m.asking(request),
        call_ensures(GetEvent::resume, (m, Reply::Fault(message)), step),
    ensures
        match request {
            Request::OneUser(_) => !(step matches Step::Done(Err(_))),
            _ => step matches Step::Done(Err(why)) && if m is Access {
                why is Internal
            } else {
                why is EventNotFound
            },
        },
{
}

/// If the database fails while it is asked for the own profile, the own profile cannot
/// be had.
pub proof fn own_profile_meets_a_fault(
    auth: AuthUser,
    m: GetUser,
    request: Request,
    message: String,
    step: Step<GetUser, UserResponse>,
)
    requires
        call_ensures(get_me, (auth,), Step::Ask(m, request)),
        call_ensures(GetUser::resume, (m, Reply::Fault(message)), step),
    ensures
        step matches Step::Done(Err(why)) && why is OwnProfileUnavailable,
{
}

/// If the database fails while it is asked for a profile, the profile cannot be had.
pub proof fn profile_meets_a_fault(
    id: Id,
    m: GetUser,
    request: Request,
    message: String,
    step: Step<GetUser, UserResponse>,
)
    requires
        call_ensures(get_user_by_id, (id,), Step::Ask(m, request)),
        call_ensures(GetUser::resume, (m, Reply::Fault(message)), step),
    ensures
        step matches Step::Done(Err(why)) && why is ProfileUnavailable,
{
}

/// If the database fails while the own profile is changed, the profile cannot be had or
/// is not updated, whichever was asked for.
pub proof fn update_me_meets_a_fault(
    m: UpdateMe,
    request: Request,
    message: String,
    step: Step<UpdateMe, UserResponse>,
)
    requires
        m.asking(request),
        call_ensures(UpdateMe::resume, (m, Reply::Fault(message)), step),
    ensures
        step matches Step::Done(Err(why)) && if request is OneUser {
            why is OwnProfileUnavailable
        } else {
            why is OwnProfileNotUpdated
        },
{
}

/// If the database fails while users are searched, the search has failed.
pub proof fn search_users_meets_a_fault(
    m: SearchUsers,
    message: String,
    step: Step<SearchUsers, Vec<UserResponse>>,
)
    requires
        call_ensures(SearchUsers::resume, (m, Reply::Fault(message)), step),
    ensures
        step matches Step::Done(Err(why)) && why is SearchFailed,
{
}

} // verus!
