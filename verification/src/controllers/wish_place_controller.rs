//! Wish places: listing, making, changing, visiting and archiving them.

use crate::controllers::event_controller::rules::{event_of, find_event};
use crate::controllers::friends::{accepted_between, are_users_accepted_friends};
use crate::controllers::models::{
    AuthUser, CreateWishPlaceBody, UpdateWishPlaceBody, VisitWishPlaceBody, WishPlaceQuery,
    WishPlaceResponse, WishPlaceStatusDto,
};
use crate::entities::{Id, WishPlaceRow, WishPlaceStatus};
use crate::machine::{steps_left, Machine, Step};
use crate::refusal::{Refusal, StatusCode};
use crate::store::{Cond, NewWishPlace, Order, Reply, Request, WishPlaceChanges, WishPlaceTest};
use crate::text::{blank, is_blank};
use vstd::prelude::*;

verus! {

/// What is shown of a wish place.
pub open spec fn shows_place(model: WishPlaceRow, shown: WishPlaceResponse) -> bool {
    &&& shown.id == model.id
    &&& shown.user_id == model.user_id
    &&& shown.title == model.title
    &&& shown.description == model.description
    &&& shown.location == model.location
    &&& shown.link == model.link
    &&& shown.status@ == model.status.text()
    &&& shown.visited_event_id == model.visited_event_id
    &&& shown.created_at@ == model.created_at.text()
}

/// What is shown of wish places, one by one.
pub open spec fn shows_places(models: Seq<WishPlaceRow>, shown: Seq<WishPlaceResponse>) -> bool {
    &&& shown.len() == models.len()
    &&& forall|i: int| 0 <= i < models.len() ==> shows_place(models[i], #[trigger] shown[i])
}

/// What is shown of a wish place.
pub fn to_response(model: WishPlaceRow) -> (r: WishPlaceResponse)
    ensures
        shows_place(model, r),
{
    WishPlaceResponse {
        id: model.id,
        user_id: model.user_id,
        title: model.title,
        description: model.description,
        location: model.location,
        link: model.link,
        status: model.status.to_string(),
        visited_event_id: model.visited_event_id,
        created_at: model.created_at.to_rfc3339(),
    }
}

fn to_responses(models: Vec<WishPlaceRow>) -> (shown: Vec<WishPlaceResponse>)
    ensures
        shows_places(models@, shown@),
{
    let mut shown: Vec<WishPlaceResponse> = Vec::new();
    for model in rows: models
        invariant
            rows.seq() == models@,
            shows_places(models@.take(rows.index() as int), shown@),
    {
        shown.push(to_response(model));
    }
    assert(models@.take(models@.len() as int) == models@);
    shown
}

/// The status that a client names.
pub open spec fn named_status(value: WishPlaceStatusDto) -> WishPlaceStatus {
    match value {
        WishPlaceStatusDto::Active => WishPlaceStatus::Active,
        WishPlaceStatusDto::Visited => WishPlaceStatus::Visited,
        WishPlaceStatusDto::Archived => WishPlaceStatus::Archived,
    }
}

/// The status that a client names.
pub fn map_status(value: WishPlaceStatusDto) -> (r: WishPlaceStatus)
    ensures
        r == named_status(value),
{
    match value {
        WishPlaceStatusDto::Active => WishPlaceStatus::Active,
        WishPlaceStatusDto::Visited => WishPlaceStatus::Visited,
        WishPlaceStatusDto::Archived => WishPlaceStatus::Archived,
    }
}

/// The wish place with this identifier, if it is one of this owner.
pub open spec fn place_by(id: Id, owner: Id) -> spec_fn(WishPlaceRow) -> bool {
    |place: WishPlaceRow| place.id == id && place.user_id == owner
}

fn find_place(id: Id, owner: Id) -> (r: Request)
    ensures
        r matches Request::OneWishPlace(c) && c.means(place_by(id, owner)),
{
    Request::OneWishPlace(
        Cond::is(WishPlaceTest::Id(id)).and(Cond::is(WishPlaceTest::UserId(owner))),
    )
}

/// Lists the wish places of a user, the latest first, to the user and to
/// friends.
pub enum GetWishPlaces {
    Friend { me: Id, user_id: Id },
    Places { user_id: Id },
}

impl GetWishPlaces {
    fn list(user_id: Id) -> (step: Step<GetWishPlaces, Vec<WishPlaceResponse>>)
        ensures
            step.waits_at(GetWishPlaces::Places { user_id }),
            step matches Step::Ask(m, request) && m.asking(request),
    {
        Step::Ask(
            GetWishPlaces::Places { user_id },
            Request::AllWishPlaces(Cond::is(WishPlaceTest::UserId(user_id)), Order::Descending),
        )
    }
}

/// Asks for the wish places of a user.
pub fn get_wish_places(auth: AuthUser, query: WishPlaceQuery) -> (step: Step<
    GetWishPlaces,
    Vec<WishPlaceResponse>,
>)
    ensures
        if auth.user_id == query.user_id {
            step.waits_at(GetWishPlaces::Places { user_id: query.user_id })
        } else {
            step.waits_at(GetWishPlaces::Friend { me: auth.user_id, user_id: query.user_id })
        },
        step matches Step::Ask(m, request) && m.asking(request),
{
    let me: Id = auth.user_id;
    let user_id: Id = query.user_id;
    if me != user_id {
        return Step::Ask(
            GetWishPlaces::Friend { me, user_id },
            are_users_accepted_friends(me, user_id),
        );
    }
    GetWishPlaces::list(user_id)
}

impl Machine for GetWishPlaces {
    type Out = Vec<WishPlaceResponse>;

    open spec fn asking(self, request: Request) -> bool {
        match self {
            GetWishPlaces::Friend { me, user_id } => {
                &&& request matches Request::OneFriendship(c)
                &&& c.means(accepted_between(me, user_id))
            },
            GetWishPlaces::Places { user_id } => {
                &&& request matches Request::AllWishPlaces(c, Order::Descending)
                &&& c.means(|place: WishPlaceRow| place.user_id == user_id)
            },
        }
    }

    open spec fn next(self, reply: Reply, step: Step<Self, Vec<WishPlaceResponse>>) -> bool {
        match self {
            GetWishPlaces::Friend { me, user_id } => match reply {
                Reply::Friendship(Some(_)) => step.waits_at(GetWishPlaces::Places { user_id }),
                Reply::Friendship(None) => step.refused(Refusal::WishPlacesForbidden),
                _ => step.refused(Refusal::Internal),
            },
            GetWishPlaces::Places { user_id } => match reply {
                Reply::WishPlaces(rows) => step matches Step::Done(Ok(shown)) && shows_places(
                    rows@,
                    shown@,
                ),
                _ => step.refused(Refusal::Internal),
            },
        }
    }

    open spec fn left(self) -> (nat, nat, nat, nat, nat) {
        match self {
            GetWishPlaces::Friend { .. } => steps_left(1),
            GetWishPlaces::Places { .. } => steps_left(0),
        }
    }

    proof fn nears_end(self, reply: Reply, step: Step<Self, Vec<WishPlaceResponse>>) {
    }

    fn resume(self, reply: Reply) -> (step: Step<Self, Vec<WishPlaceResponse>>) {
        match self {
            GetWishPlaces::Friend { me, user_id } => match reply {
                Reply::Friendship(Some(_)) => GetWishPlaces::list(user_id),
                Reply::Friendship(None) => Step::Done(Err(Refusal::WishPlacesForbidden)),
                _ => Step::Done(Err(Refusal::Internal)),
            },
            GetWishPlaces::Places { user_id } => match reply {
                Reply::WishPlaces(rows) => Step::Done(Ok(to_responses(rows))),
                _ => Step::Done(Err(Refusal::Internal)),
            },
        }
    }
}

/// Makes a wish place.
pub enum CreateWishPlace {
    Insert { me: Id, wanted: Ghost<CreateWishPlaceBody> },
}

/// Asks to make a wish place.
pub fn create_wish_place(auth: AuthUser, body: CreateWishPlaceBody) -> (step: Step<
    CreateWishPlace,
    (StatusCode, WishPlaceResponse),
>)
    ensures
        if blank(body.title@) {
            step.refused(Refusal::WishPlaceTitleMissing)
        } else {
            step.waits_at(CreateWishPlace::Insert { me: auth.user_id, wanted: Ghost(body) })
        },
        step matches Step::Ask(m, request) ==> m.asking(request),
{
    if is_blank(body.title.as_str()) {
        return Step::Done(Err(Refusal::WishPlaceTitleMissing));
    }
    let ghost wanted = body;
    let new = NewWishPlace {
        user_id: auth.user_id,
        title: body.title,
        description: body.description,
        location: body.location,
        link: body.link,
        status: WishPlaceStatus::Active,
        visited_event_id: None,
    };
    Step::Ask(
        CreateWishPlace::Insert { me: auth.user_id, wanted: Ghost(wanted) },
        Request::InsertWishPlace(new),
    )
}

impl Machine for CreateWishPlace {
    type Out = (StatusCode, WishPlaceResponse);

    open spec fn asking(self, request: Request) -> bool {
        match self {
            CreateWishPlace::Insert { me, wanted } => {
                &&& request matches Request::InsertWishPlace(new)
                &&& new.user_id == me
                &&& new.title == wanted@.title
                &&& new.description == wanted@.description
                &&& new.location == wanted@.location
                &&& new.link == wanted@.link
                &&& new.status is Active
                &&& new.visited_event_id is None
            },
        }
    }

    open spec fn next(
        self,
        reply: Reply,
        step: Step<Self, (StatusCode, WishPlaceResponse)>,
    ) -> bool {
        match reply {
            Reply::StoredWishPlace(row) => step matches Step::Done(Ok(made)) && made.0 is Created
                && shows_place(row, made.1),
            _ => step.refused(Refusal::Internal),
        }
    }

    open spec fn left(self) -> (nat, nat, nat, nat, nat) {
        match self {
            CreateWishPlace::Insert { .. } => steps_left(0),
        }
    }

    proof fn nears_end(self, reply: Reply, step: Step<Self, (StatusCode, WishPlaceResponse)>) {
    }

    fn resume(self, reply: Reply) -> (step: Step<Self, (StatusCode, WishPlaceResponse)>) {
        match reply {
            Reply::StoredWishPlace(row) => Step::Done(Ok((StatusCode::Created, to_response(row)))),
            _ => Step::Done(Err(Refusal::Internal)),
        }
    }
}

/// Whether a client wants anything changed.
pub open spec fn wants_nothing(body: UpdateWishPlaceBody) -> bool {
    &&& body.title is None
    &&& body.description is None
    &&& body.location is None
    &&& body.link is None
    &&& body.status is None
}

/// The changes that a client wants: what is given is written; a place that is
/// made anything but visited loses the event of its visit.
pub open spec fn wanted_changes(body: UpdateWishPlaceBody, changes: WishPlaceChanges) -> bool {
    &&& changes.title == body.title
    &&& changes.description == body.description
    &&& changes.location == body.location
    &&& changes.link == body.link
    &&& match body.status {
        Some(status) => {
            &&& changes.status == Some(named_status(status))
            &&& changes.visited_event_id == if status is Visited {
                None::<Option<Id>>
            } else {
                Some(None::<Id>)
            }
        },
        None => changes.status is None && changes.visited_event_id is None,
    }
}

/// Changes a wish place of one's own.
pub enum UpdateWishPlace {
    Find { me: Id, id: Id, body: UpdateWishPlaceBody },
    Update { id: Id, wanted: Ghost<UpdateWishPlaceBody> },
}

/// Asks to change a wish place.
pub fn update_wish_place(auth: AuthUser, id: Id, body: UpdateWishPlaceBody) -> (step: Step<
    UpdateWishPlace,
    WishPlaceResponse,
>)
    ensures
        step.waits_at(UpdateWishPlace::Find { me: auth.user_id, id, body }),
        step matches Step::Ask(m, request) && m.asking(request),
{
    let me: Id = auth.user_id;
    Step::Ask(UpdateWishPlace::Find { me, id, body }, find_place(id, me))
}

/// The changes that a client wants, or why there are none.
fn changes_of(body: UpdateWishPlaceBody) -> (r: Result<WishPlaceChanges, Refusal>)
    ensures
        match r {
            Ok(changes) => !wants_nothing(body) && !(body.title matches Some(t) && blank(t@))
                && wanted_changes(body, changes),
            Err(Refusal::NothingToUpdate) => wants_nothing(body),
            Err(Refusal::WishPlaceTitleEmpty) => body.title matches Some(t) && blank(t@),
            Err(_) => false,
        },
{
    if body.title.is_none() && body.description.is_none() && body.location.is_none()
        && body.link.is_none() && body.status.is_none() {
        return Err(Refusal::NothingToUpdate);
    }
    match &body.title {
        Some(title) => {
            if is_blank(title.as_str()) {
                return Err(Refusal::WishPlaceTitleEmpty);
            }
        },
        None => {},
    }
    let (status, visited_event_id): (Option<WishPlaceStatus>, Option<Option<Id>>) = match body.status {
        Some(status) => {
            if matches!(status, WishPlaceStatusDto::Visited) {
                (Some(map_status(status)), None)
            } else {
                (Some(map_status(status)), Some(None))
            }
        },
        None => (None, None),
    };
    Ok(
        WishPlaceChanges {
            title: body.title,
            description: body.description,
            location: body.location,
            link: body.link,
            status,
            visited_event_id,
        },
    )
}

impl Machine for UpdateWishPlace {
    type Out = WishPlaceResponse;

    open spec fn asking(self, request: Request) -> bool {
        match self {
            UpdateWishPlace::Find { me, id, body } => {
                &&& request matches Request::OneWishPlace(c)
                &&& c.means(place_by(id, me))
            },
            UpdateWishPlace::Update { id, wanted } => {
                &&& request matches Request::UpdateWishPlace(i, changes)
                &&& i == id
                &&& wanted_changes(wanted@, changes)
            },
        }
    }

    open spec fn next(self, reply: Reply, step: Step<Self, WishPlaceResponse>) -> bool {
        match self {
            UpdateWishPlace::Find { me, id, body } => match reply {
                Reply::WishPlace(Some(row)) => if wants_nothing(body) {
                    step.refused(Refusal::NothingToUpdate)
                } else if body.title matches Some(title) && blank(title@) {
                    step.refused(Refusal::WishPlaceTitleEmpty)
                } else {
                    step.waits_at(UpdateWishPlace::Update { id: row.id, wanted: Ghost(body) })
                },
                Reply::WishPlace(None) => step.refused(Refusal::WishPlaceMissing),
                _ => step.refused(Refusal::Internal),
            },
            UpdateWishPlace::Update { id, wanted } => match reply {
                Reply::StoredWishPlace(row) => step matches Step::Done(Ok(shown)) && shows_place(
                    row,
                    shown,
                ),
                _ => step.refused(Refusal::Internal),
            },
        }
    }

    open spec fn left(self) -> (nat, nat, nat, nat, nat) {
        match self {
            UpdateWishPlace::Find { .. } => steps_left(1),
            UpdateWishPlace::Update { .. } => steps_left(0),
        }
    }

    proof fn nears_end(self, reply: Reply, step: Step<Self, WishPlaceResponse>) {
    }

    fn resume(self, reply: Reply) -> (step: Step<Self, WishPlaceResponse>) {
        match self {
            UpdateWishPlace::Find { me, id, body } => match reply {
                Reply::WishPlace(Some(row)) => {
                    let ghost wanted = body;
                    match changes_of(body) {
                        Ok(changes) => Step::Ask(
                            UpdateWishPlace::Update { id: row.id, wanted: Ghost(wanted) },
                            Request::UpdateWishPlace(row.id, changes),
                        ),
                        Err(why) => Step::Done(Err(why)),
                    }
                },
                Reply::WishPlace(None) => Step::Done(Err(Refusal::WishPlaceMissing)),
                _ => Step::Done(Err(Refusal::Internal)),
            },
            UpdateWishPlace::Update { id, wanted } => match reply {
                Reply::StoredWishPlace(row) => Step::Done(Ok(to_response(row))),
                _ => Step::Done(Err(Refusal::Internal)),
            },
        }
    }
}

/// The changes that set a status, and the event of a visit if there is one.
pub open spec fn sets_status(
    changes: WishPlaceChanges,
    status: WishPlaceStatus,
    visited_event_id: Option<Option<Id>>,
) -> bool {
    &&& changes.title is None
    &&& changes.description is None
    &&& changes.location is None
    &&& changes.link is None
    &&& changes.status == Some(status)
    &&& changes.visited_event_id == visited_event_id
}

fn set_status(status: WishPlaceStatus, visited_event_id: Option<Option<Id>>) -> (r: WishPlaceChanges)
    ensures
        sets_status(r, status, visited_event_id),
{
    WishPlaceChanges {
        title: None,
        description: None,
        location: None,
        link: None,
        status: Some(status),
        visited_event_id,
    }
}

/// Marks a wish place of one's own as visited, at an event of one's own.
pub enum VisitWishPlace {
    Find { me: Id, id: Id, event_id: Id },
    Event { me: Id, place: Id, event_id: Id },
    Update { place: Id, event_id: Id },
}

/// Asks to mark a wish place as visited.
pub fn visit_wish_place(auth: AuthUser, id: Id, body: VisitWishPlaceBody) -> (step: Step<
    VisitWishPlace,
    WishPlaceResponse,
>)
    ensures
        step.waits_at(VisitWishPlace::Find { me: auth.user_id, id, event_id: body.event_id }),
        step matches Step::Ask(m, request) && m.asking(request),
{
    let me: Id = auth.user_id;
    Step::Ask(VisitWishPlace::Find { me, id, event_id: body.event_id }, find_place(id, me))
}

impl Machine for VisitWishPlace {
    type Out = WishPlaceResponse;

    open spec fn asking(self, request: Request) -> bool {
        match self {
            VisitWishPlace::Find { me, id, event_id } => {
                &&& request matches Request::OneWishPlace(c)
                &&& c.means(place_by(id, me))
            },
            VisitWishPlace::Event { me, place, event_id } => {
                &&& request matches Request::OneEvent(c)
                &&& c.means(event_of(event_id))
            },
            VisitWishPlace::Update { place, event_id } => {
                &&& request matches Request::UpdateWishPlace(i, changes)
                &&& i == place
                &&& sets_status(changes, WishPlaceStatus::Visited, Some(Some(event_id)))
            },
        }
    }

    open spec fn next(self, reply: Reply, step: Step<Self, WishPlaceResponse>) -> bool {
        match self {
            VisitWishPlace::Find { me, id, event_id } => match reply {
                Reply::WishPlace(Some(row)) => step.waits_at(
                    VisitWishPlace::Event { me, place: row.id, event_id },
                ),
                Reply::WishPlace(None) => step.refused(Refusal::WishPlaceMissing),
                _ => step.refused(Refusal::Internal),
            },
            VisitWishPlace::Event { me, place, event_id } => match reply {
                Reply::Event(Some(event)) => if event.creator_id == me {
                    step.waits_at(VisitWishPlace::Update { place, event_id })
                } else {
                    step.refused(Refusal::VisitForbidden)
                },
                Reply::Event(None) => step.refused(Refusal::EventNotFound),
                _ => step.refused(Refusal::Internal),
            },
            VisitWishPlace::Update { place, event_id } => match reply {
                Reply::StoredWishPlace(row) => step matches Step::Done(Ok(shown)) && shows_place(
                    row,
                    shown,
                ),
                _ => step.refused(Refusal::Internal),
            },
        }
    }

    open spec fn left(self) -> (nat, nat, nat, nat, nat) {
        match self {
            VisitWishPlace::Find { .. } => steps_left(2),
            VisitWishPlace::Event { .. } => steps_left(1),
            VisitWishPlace::Update { .. } => steps_left(0),
        }
    }

    proof fn nears_end(self, reply: Reply, step: Step<Self, WishPlaceResponse>) {
    }

    fn resume(self, reply: Reply) -> (step: Step<Self, WishPlaceResponse>) {
        match self {
            VisitWishPlace::Find { me, id, event_id } => match reply {
                Reply::WishPlace(Some(row)) => Step::Ask(
                    VisitWishPlace::Event { me, place: row.id, event_id },
                    find_event(event_id),
                ),
                Reply::WishPlace(None) => Step::Done(Err(Refusal::WishPlaceMissing)),
                _ => Step::Done(Err(Refusal::Internal)),
            },
            VisitWishPlace::Event { me, place, event_id } => match reply {
                Reply::Event(Some(event)) => {
                    if event.creator_id != me {
                        return Step::Done(Err(Refusal::VisitForbidden));
                    }
                    let changes = set_status(WishPlaceStatus::Visited, Some(Some(event_id)));
                    Step::Ask(
                        VisitWishPlace::Update { place, event_id },
                        Request::UpdateWishPlace(place, changes),
                    )
                },
                Reply::Event(None) => Step::Done(Err(Refusal::EventNotFound)),
                _ => Step::Done(Err(Refusal::Internal)),
            },
            VisitWishPlace::Update { place, event_id } => match reply {
                Reply::StoredWishPlace(row) => Step::Done(Ok(to_response(row))),
                _ => Step::Done(Err(Refusal::Internal)),
            },
        }
    }
}

/// Archives a wish place of one's own.
pub enum DeleteWishPlace {
    Find { me: Id, id: Id },
    Update { place: Id },
}

/// Asks to archive a wish place.
pub fn delete_wish_place(auth: AuthUser, id: Id) -> (step: Step<DeleteWishPlace, StatusCode>)
    ensures
        step.waits_at(DeleteWishPlace::Find { me: auth.user_id, id }),
        step matches Step::Ask(m, request) && m.asking(request),
{
    let me: Id = auth.user_id;
    Step::Ask(DeleteWishPlace::Find { me, id }, find_place(id, me))
}

impl Machine for DeleteWishPlace {
    type Out = StatusCode;

    open spec fn asking(self, request: Request) -> bool {
        match self {
            DeleteWishPlace::Find { me, id } => {
                &&& request matches Request::OneWishPlace(c)
                &&& c.means(place_by(id, me))
            },
            DeleteWishPlace::Update { place } => {
                &&& request matches Request::UpdateWishPlace(i, changes)
                &&& i == place
                &&& sets_status(changes, WishPlaceStatus::Archived, None)
            },
        }
    }

    open spec fn next(self, reply: Reply, step: Step<Self, StatusCode>) -> bool {
        match self {
            DeleteWishPlace::Find { me, id } => match reply {
                Reply::WishPlace(Some(row)) => step.waits_at(
                    DeleteWishPlace::Update { place: row.id },
                ),
                Reply::WishPlace(None) => step.refused(Refusal::WishPlaceMissing),
                _ => step.refused(Refusal::Internal),
            },
            DeleteWishPlace::Update { place } => match reply {
                Reply::StoredWishPlace(_) => step == Step::<Self, StatusCode>::Done(
                    Ok(StatusCode::NoContent),
                ),
                _ => step.refused(Refusal::Internal),
            },
        }
    }

    open spec fn left(self) -> (nat, nat, nat, nat, nat) {
        match self {
            DeleteWishPlace::Find { .. } => steps_left(1),
            DeleteWishPlace::Update { .. } => steps_left(0),
        }
    }

    proof fn nears_end(self, reply: Reply, step: Step<Self, StatusCode>) {
    }

    fn resume(self, reply: Reply) -> (step: Step<Self, StatusCode>) {
        match self {
            DeleteWishPlace::Find { me, id } => match reply {
                Reply::WishPlace(Some(row)) => Step::Ask(
                    DeleteWishPlace::Update { place: row.id },
                    Request::UpdateWishPlace(row.id, set_status(WishPlaceStatus::Archived, None)),
                ),
                Reply::WishPlace(None) => Step::Done(Err(Refusal::WishPlaceMissing)),
                _ => Step::Done(Err(Refusal::Internal)),
            },
            DeleteWishPlace::Update { place } => match reply {
                Reply::StoredWishPlace(_) => Step::Done(Ok(StatusCode::NoContent)),
                _ => Step::Done(Err(Refusal::Internal)),
            },
        }
    }
}

} // verus!
