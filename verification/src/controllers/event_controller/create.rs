//! Making an event.

use crate::controllers::dates::{named_day, parse_date, reads_back};
use crate::controllers::event_controller::load::{load_event_response, LoadEvent};
use crate::controllers::event_controller::rules::{
    busy_on, constraint_refusal, ensure_day_is_free, map_db_constraint_error,
};
use crate::controllers::friends::{accepted_between, are_users_accepted_friends};
use crate::controllers::models::{AuthUser, CreateEventBody, EventResponse};
use crate::entities::{EventStatus, Id, UserEventResponse, UserEventRole};
use crate::machine::{rest, steps_left, then_left, Machine, Step};
use crate::refusal::{Refusal, StatusCode};
use crate::store::{NewBusyday, NewEvent, NewUserEvent, Reply, Request};
use crate::text::{blank, is_blank};
use crate::time::Date;
use vstd::prelude::*;

verus! {

/// An event that is about to be made.
#[derive(Debug)]
pub struct EventDraft {
    pub date: Date,
    pub title: String,
    pub description: Option<String>,
    pub location: Option<String>,
    pub wish_place_id: Option<Id>,
}

/// Identifiers in ascending order, none twice.
pub open spec fn ascending(ids: Seq<Id>) -> bool {
    forall|i: int, j: int| 0 <= i < j < ids.len() ==> ids[i] < ids[j]
}

/// The guests of an event of `me`: those invited, but for `me`, each once and
/// in ascending order.
pub open spec fn guest_list(invited: Seq<Id>, me: Id, guests: Seq<Id>) -> bool {
    &&& ascending(guests)
    &&& forall|id: Id| #[trigger] guests.contains(id) <==> invited.contains(id) && id != me
}

/// Puts an identifier in its place, unless it is there.
fn place(guests: &mut Vec<Id>, id: Id)
    requires
        ascending(old(guests)@),
    ensures
        ascending(final(guests)@),
        forall|x: Id| #[trigger]
            final(guests)@.contains(x) <==> old(guests)@.contains(x) || x == id,
{
    let ghost before = guests@;
    let mut at: usize = 0;
    while at < guests.len() && guests[at] < id
        invariant
            guests@ == before,
            at <= guests@.len(),
            forall|i: int| 0 <= i < at ==> guests@[i] < id,
        decreases guests@.len() - at,
    {
        at = at + 1;
    }
    if at < guests.len() && guests[at] == id {
        assert(before[at as int] == id);
        return;
    }
    guests.insert(at, id);
    proof {
        let after = guests@;
        assert(after == before.insert(at as int, id));
        assert(after[at as int] == id);
        assert forall|x: Id| before.contains(x) || x == id implies #[trigger] after.contains(x) by {
            if x != id {
                let i = choose|i: int| 0 <= i < before.len() && before[i] == x;
                if i < at {
                    assert(after[i] == x);
                } else {
                    assert(after[i + 1] == x);
                }
            }
        }
        assert forall|x: Id| #[trigger] after.contains(x) implies before.contains(x) || x == id by {
            let i = choose|i: int| 0 <= i < after.len() && after[i] == x;
            if i < at {
                assert(before[i] == x);
            } else if i > at {
                assert(before[i - 1] == x);
            }
        }
        assert forall|i: int, j: int| 0 <= i < j < after.len() implies after[i] < after[j] by {
            let bi = if i < at { i } else { i - 1 };
            let bj = if j < at { j } else { j - 1 };
            assert(i != at ==> after[i] == before[bi]);
            assert(j != at ==> after[j] == before[bj]);
            if i == at && at < before.len() {
                assert(before[at as int] > id);
                assert(before[at as int] <= before[bj]);
            }
        }
    }
}

/// The guests of an event of `me`, from the identifiers that a client sent.
pub fn guests_of(invited: &Vec<Id>, me: Id) -> (guests: Vec<Id>)
    ensures
        guest_list(invited@, me, guests@),
{
    let mut guests: Vec<Id> = Vec::new();
    for i in 0..invited.len()
        invariant
            guest_list(invited@.take(i as int), me, guests@),
    {
        let id: Id = invited[i];
        let ghost earlier = guests@;
        if id != me {
            place(&mut guests, id);
        }
        proof {
            let seen = invited@.take(i as int);
            let more = invited@.take(i + 1);
            assert(more == seen.push(id));
            assert forall|x: Id| #[trigger] more.contains(x) <==> seen.contains(x) || x == id by {
                if seen.contains(x) {
                    let k = choose|k: int| 0 <= k < seen.len() && seen[k] == x;
                    assert(more[k] == x);
                }
                assert(more[i as int] == id);
                if more.contains(x) && x != id {
                    let k = choose|k: int| 0 <= k < more.len() && more[k] == x;
                    assert(seen[k] == x);
                }
            }
        }
    }
    assert(invited@.take(invited@.len() as int) == invited@);
    guests
}

/// The invitations to an event, one for each guest.
pub open spec fn invitations(event_id: Id, guests: Seq<Id>) -> Seq<NewUserEvent> {
    guests.map_values(
        |guest: Id|
            NewUserEvent {
                event_id,
                user_id: guest,
                role: UserEventRole::Participant,
                response_status: UserEventResponse::Pending,
            },
    )
}

fn invite(event_id: Id, guests: &Vec<Id>) -> (rows: Vec<NewUserEvent>)
    ensures
        rows@ == invitations(event_id, guests@),
{
    let mut rows: Vec<NewUserEvent> = Vec::new();
    for i in 0..guests.len()
        invariant
            rows@ == invitations(event_id, guests@.take(i as int)),
    {
        rows.push(
            NewUserEvent {
                event_id,
                user_id: guests[i],
                role: UserEventRole::Participant,
                response_status: UserEventResponse::Pending,
            },
        );
        assert(rows@ =~= invitations(event_id, guests@.take(i + 1)));
    }
    assert(guests@.take(guests@.len() as int) == guests@);
    rows
}

/// Makes an event: every guest must be a friend, and on its day neither the
/// owner nor a guest may be taken.
pub enum CreateEvent {
    /// Is the guest at `at` a friend?
    Friend { me: Id, draft: EventDraft, guests: Vec<Id>, at: usize },
    Begin { me: Id, draft: EventDraft, guests: Vec<Id> },
    /// Is the owner's day taken?
    OwnDay { me: Id, draft: EventDraft, guests: Vec<Id> },
    /// Is the day of the guest at `at` taken?
    GuestDay { me: Id, draft: EventDraft, guests: Vec<Id>, at: usize },
    Event { me: Id, date: Date, guests: Vec<Id>, of: Ghost<EventDraft> },
    Owner { me: Id, date: Date, guests: Vec<Id>, event_id: Id },
    Reservation { me: Id, date: Date, guests: Vec<Id>, event_id: Id },
    Invitations { event_id: Id, invited: Ghost<Seq<Id>> },
    Commit { event_id: Id },
    Loading(LoadEvent),
}

impl CreateEvent {
    /// The guests before `at` are friends.
    pub open spec fn befriended(
        me: Id,
        draft: EventDraft,
        guests: Vec<Id>,
        at: int,
        step: Step<CreateEvent, (StatusCode, EventResponse)>,
    ) -> bool {
        if at < guests@.len() {
            step matches Step::Ask(CreateEvent::Friend { me: m, draft: d, guests: g, at: a }, _)
                && m == me && d == draft && g == guests && a == at
        } else {
            step.waits_at(CreateEvent::Begin { me, draft, guests })
        }
    }

    fn befriend(me: Id, draft: EventDraft, guests: Vec<Id>, at: usize) -> (step: Step<
        CreateEvent,
        (StatusCode, EventResponse),
    >)
        ensures
            CreateEvent::befriended(me, draft, guests, at as int, step),
            step matches Step::Ask(m, request) ==> m.asking(request),
    {
        if at < guests.len() {
            let request = are_users_accepted_friends(me, guests[at]);
            Step::Ask(CreateEvent::Friend { me, draft, guests, at }, request)
        } else {
            Step::Ask(CreateEvent::Begin { me, draft, guests }, Request::Begin)
        }
    }

    /// The day of the owner and those of the guests before `at` are free.
    pub open spec fn freed(
        me: Id,
        draft: EventDraft,
        guests: Vec<Id>,
        at: int,
        step: Step<CreateEvent, (StatusCode, EventResponse)>,
    ) -> bool {
        if at < guests@.len() {
            step matches Step::Ask(CreateEvent::GuestDay { me: m, draft: d, guests: g, at: a }, _)
                && m == me && d == draft && g == guests && a == at
        } else {
            step.waits_at(
                CreateEvent::Event { me, date: draft.date, guests, of: Ghost(draft) },
            )
        }
    }

    fn free(me: Id, draft: EventDraft, guests: Vec<Id>, at: usize) -> (step: Step<
        CreateEvent,
        (StatusCode, EventResponse),
    >)
        ensures
            CreateEvent::freed(me, draft, guests, at as int, step),
            step matches Step::Ask(m, request) ==> m.asking(request),
    {
        if at < guests.len() {
            let request = ensure_day_is_free(guests[at], draft.date);
            Step::Ask(CreateEvent::GuestDay { me, draft, guests, at }, request)
        } else {
            let ghost kept = draft;
            let date = draft.date;
            let request = Request::InsertEvent(
                NewEvent {
                    creator_id: me,
                    date: draft.date,
                    title: draft.title,
                    description: draft.description,
                    location: draft.location,
                    status: EventStatus::Pending,
                    wish_place_id: draft.wish_place_id,
                    memory_image_base64: None,
                },
            );
            Step::Ask(CreateEvent::Event { me, date, guests, of: Ghost(kept) }, request)
        }
    }

    /// A request to make an event has been looked at, and begun or refused.
    pub open spec fn begun(
        me: Id,
        body: CreateEventBody,
        step: Step<CreateEvent, (StatusCode, EventResponse)>,
    ) -> bool {
        match named_day(body.date@) {
            None => step.refused(Refusal::InvalidDate),
            Some(day) => if blank(body.title@) {
                step.refused(Refusal::EventTitleMissing)
            } else {
                exists|draft: EventDraft, guests: Vec<Id>|
                    {
                        &&& draft.date.ymd() == day
                        &&& draft.title == body.title
                        &&& draft.description == body.description
                        &&& draft.location == body.location
                        &&& draft.wish_place_id == body.wish_place_id
                        &&& guest_list(body.participant_ids@, me, guests@)
                        &&& #[trigger] CreateEvent::befriended(me, draft, guests, 0, step)
                    }
            },
        }
    }
}

/// Asks to make an event on behalf of the user who is signed in.
pub fn create_event(auth: AuthUser, body: CreateEventBody) -> (step: Step<
    CreateEvent,
    (StatusCode, EventResponse),
>)
    ensures
        CreateEvent::begun(auth.user_id, body, step),
        reads_back(body.date@),
        step matches Step::Ask(m, request) ==> m.asking(request),
{
    let me: Id = auth.user_id;
    let date = match parse_date(body.date.as_str()) {
        Ok(date) => date,
        Err(why) => {
            return Step::Done(Err(why));
        },
    };
    if is_blank(body.title.as_str()) {
        return Step::Done(Err(Refusal::EventTitleMissing));
    }
    let guests = guests_of(&body.participant_ids, me);
    let draft = EventDraft {
        date,
        title: body.title,
        description: body.description,
        location: body.location,
        wish_place_id: body.wish_place_id,
    };
    CreateEvent::befriend(me, draft, guests, 0)
}

impl Machine for CreateEvent {
    type Out = (StatusCode, EventResponse);

    open spec fn asking(self, request: Request) -> bool {
        match self {
            CreateEvent::Friend { me, draft, guests, at } => {
                &&& at < guests@.len()
                &&& request matches Request::OneFriendship(c)
                &&& c.means(accepted_between(me, guests@[at as int]))
            },
            CreateEvent::Begin { me, draft, guests } => request is Begin,
            CreateEvent::OwnDay { me, draft, guests } => {
                &&& request matches Request::OneBusyday(c)
                &&& c.means(busy_on(me, draft.date))
            },
            CreateEvent::GuestDay { me, draft, guests, at } => {
                &&& at < guests@.len()
                &&& request matches Request::OneBusyday(c)
                &&& c.means(busy_on(guests@[at as int], draft.date))
            },
            CreateEvent::Event { me, date, guests, of } => {
                &&& request matches Request::InsertEvent(event)
                &&& event.creator_id == me
                &&& event.date == date
                &&& event.title == of@.title
                &&& event.description == of@.description
                &&& event.location == of@.location
                &&& event.status is Pending
                &&& event.wish_place_id == of@.wish_place_id
                &&& event.memory_image_base64 is None
            },
            CreateEvent::Owner { me, date, guests, event_id } => {
                &&& request matches Request::InsertUserEvent(row)
                &&& row.event_id == event_id
                &&& row.user_id == me
                &&& row.role is Owner
                &&& row.response_status is Accepted
            },
            CreateEvent::Reservation { me, date, guests, event_id } => {
                &&& request matches Request::InsertBusyday(row)
                &&& row.user_id == me
                &&& row.date == date
                &&& row.event_id == Some(event_id)
            },
            CreateEvent::Invitations { event_id, invited } => {
                &&& request matches Request::InsertUserEvents(rows)
                &&& rows@ == invitations(event_id, invited@)
            },
            CreateEvent::Commit { event_id } => request is Commit,
            CreateEvent::Loading(load) => load.asking(request),
        }
    }

    open spec fn next(self, reply: Reply, step: Step<Self, (StatusCode, EventResponse)>) -> bool {
        match self {
            CreateEvent::Friend { me, draft, guests, at } => match reply {
                Reply::Friendship(Some(_)) => CreateEvent::befriended(
                    me,
                    draft,
                    guests,
                    at + 1,
                    step,
                ),
                Reply::Friendship(None) => step.refused(Refusal::GuestNotFriend),
                _ => step.refused(Refusal::Internal),
            },
            CreateEvent::Begin { me, draft, guests } => match reply {
                Reply::Done => step.waits_at(CreateEvent::OwnDay { me, draft, guests }),
                _ => step.refused(Refusal::Internal),
            },
            CreateEvent::OwnDay { me, draft, guests } => match reply {
                Reply::Busyday(None) => CreateEvent::freed(me, draft, guests, 0, step),
                Reply::Busyday(Some(_)) => step.refused(Refusal::DayReserved),
                _ => step.refused(Refusal::Internal),
            },
            CreateEvent::GuestDay { me, draft, guests, at } => match reply {
                Reply::Busyday(None) => CreateEvent::freed(me, draft, guests, at + 1, step),
                Reply::Busyday(Some(_)) => step.refused(Refusal::GuestBusy),
                _ => step.refused(Refusal::Internal),
            },
            CreateEvent::Event { me, date, guests, of } => match reply {
                Reply::StoredEvent(event) => step.waits_at(
                    CreateEvent::Owner { me, date, guests, event_id: event.id },
                ),
                _ => step.refused(Refusal::Internal),
            },
            CreateEvent::Owner { me, date, guests, event_id } => match reply {
                Reply::Done => step.waits_at(
                    CreateEvent::Reservation { me, date, guests, event_id },
                ),
                _ => step.refused(Refusal::Internal),
            },
            CreateEvent::Reservation { me, date, guests, event_id } => match reply {
                Reply::Done => if guests@.len() == 0 {
                    step.waits_at(CreateEvent::Commit { event_id })
                } else {
                    step.waits_at(CreateEvent::Invitations { event_id, invited: Ghost(guests@) })
                },
                Reply::Fault(message) => step.refused(constraint_refusal(message@)),
                _ => step.refused(Refusal::Internal),
            },
            CreateEvent::Invitations { event_id, invited } => match reply {
                Reply::Done => step.waits_at(CreateEvent::Commit { event_id }),
                _ => step.refused(Refusal::Internal),
            },
            CreateEvent::Commit { event_id } => match reply {
                Reply::Done => step.waits_at(
                    CreateEvent::Loading(LoadEvent::Event { id: event_id }),
                ),
                _ => step.refused(Refusal::Internal),
            },
            CreateEvent::Loading(load) => match step {
                Step::Ask(CreateEvent::Loading(l), request) => load.next(
                    reply,
                    Step::Ask(l, request),
                ),
                Step::Done(Ok(made)) => made.0 is Created && load.next(
                    reply,
                    Step::Done(Ok(made.1)),
                ),
                Step::Done(Err(why)) => load.next(reply, Step::Done(Err(why))),
                _ => false,
            },
        }
    }

    open spec fn left(self) -> (nat, nat, nat, nat, nat) {
        match self {
            CreateEvent::Friend { guests, at, .. } => then_left(
                9,
                steps_left(rest(guests@.len(), at)),
            ),
            CreateEvent::Begin { .. } => steps_left(8),
            CreateEvent::OwnDay { .. } => steps_left(7),
            CreateEvent::GuestDay { guests, at, .. } => then_left(
                6,
                steps_left(rest(guests@.len(), at)),
            ),
            CreateEvent::Event { .. } => steps_left(5),
            CreateEvent::Owner { .. } => steps_left(4),
            CreateEvent::Reservation { .. } => steps_left(3),
            CreateEvent::Invitations { .. } => steps_left(2),
            CreateEvent::Commit { .. } => steps_left(1),
            CreateEvent::Loading(load) => then_left(0, load.left()),
        }
    }

    proof fn nears_end(self, reply: Reply, step: Step<Self, (StatusCode, EventResponse)>) {
        if let CreateEvent::Loading(load) = self {
            match step {
                Step::Ask(CreateEvent::Loading(l), request) => {
                    load.nears_end(reply, Step::Ask(l, request));
                },
                _ => {},
            }
        }
    }

    fn resume(self, reply: Reply) -> (step: Step<Self, (StatusCode, EventResponse)>) {
        match self {
            CreateEvent::Friend { me, draft, guests, at } => match reply {
                Reply::Friendship(Some(_)) => {
                    if at < guests.len() {
                        CreateEvent::befriend(me, draft, guests, at + 1)
                    } else {
                        CreateEvent::befriend(me, draft, guests, at)
                    }
                },
                Reply::Friendship(None) => Step::Done(Err(Refusal::GuestNotFriend)),
                _ => Step::Done(Err(Refusal::Internal)),
            },
            CreateEvent::Begin { me, draft, guests } => match reply {
                Reply::Done => {
                    let request = ensure_day_is_free(me, draft.date);
                    Step::Ask(CreateEvent::OwnDay { me, draft, guests }, request)
                },
                _ => Step::Done(Err(Refusal::Internal)),
            },
            CreateEvent::OwnDay { me, draft, guests } => match reply {
                Reply::Busyday(None) => CreateEvent::free(me, draft, guests, 0),
                Reply::Busyday(Some(_)) => Step::Done(Err(Refusal::DayReserved)),
                _ => Step::Done(Err(Refusal::Internal)),
            },
            CreateEvent::GuestDay { me, draft, guests, at } => match reply {
                Reply::Busyday(None) => {
                    if at < guests.len() {
                        CreateEvent::free(me, draft, guests, at + 1)
                    } else {
                        CreateEvent::free(me, draft, guests, at)
                    }
                },
                Reply::Busyday(Some(_)) => Step::Done(Err(Refusal::GuestBusy)),
                _ => Step::Done(Err(Refusal::Internal)),
            },
            CreateEvent::Event { me, date, guests, of } => match reply {
                Reply::StoredEvent(event) => {
                    let request = Request::InsertUserEvent(
                        NewUserEvent {
                            event_id: event.id,
                            user_id: me,
                            role: UserEventRole::Owner,
                            response_status: UserEventResponse::Accepted,
                        },
                    );
                    Step::Ask(CreateEvent::Owner { me, date, guests, event_id: event.id }, request)
                },
                _ => Step::Done(Err(Refusal::Internal)),
            },
            CreateEvent::Owner { me, date, guests, event_id } => match reply {
                Reply::Done => {
                    let request = Request::InsertBusyday(
                        NewBusyday { user_id: me, date, event_id: Some(event_id) },
                    );
                    Step::Ask(CreateEvent::Reservation { me, date, guests, event_id }, request)
                },
                _ => Step::Done(Err(Refusal::Internal)),
            },
            CreateEvent::Reservation { me, date, guests, event_id } => match reply {
                Reply::Done => {
                    if guests.len() == 0 {
                        Step::Ask(CreateEvent::Commit { event_id }, Request::Commit)
                    } else {
                        let rows = invite(event_id, &guests);
                        Step::Ask(
                            CreateEvent::Invitations { event_id, invited: Ghost(guests@) },
                            Request::InsertUserEvents(rows),
                        )
                    }
                },
                Reply::Fault(message) => Step::Done(
                    Err(map_db_constraint_error(message.as_str())),
                ),
                _ => Step::Done(Err(Refusal::Internal)),
            },
            CreateEvent::Invitations { event_id, invited } => match reply {
                Reply::Done => Step::Ask(CreateEvent::Commit { event_id }, Request::Commit),
                _ => Step::Done(Err(Refusal::Internal)),
            },
            CreateEvent::Commit { event_id } => match reply {
                Reply::Done => Step::Ask(
                    CreateEvent::Loading(LoadEvent::Event { id: event_id }),
                    load_event_response(event_id),
                ),
                _ => Step::Done(Err(Refusal::Internal)),
            },
            CreateEvent::Loading(load) => match load.resume(reply) {
                Step::Ask(load, request) => Step::Ask(CreateEvent::Loading(load), request),
                Step::Done(Ok(shown)) => Step::Done(Ok((StatusCode::Created, shown))),
                Step::Done(Err(why)) => Step::Done(Err(why)),
            },
        }
    }
}

} // verus!
