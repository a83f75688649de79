//! Reading an event with the people in it.

use crate::controllers::models::{EventResponse, ParticipantResponse};
use crate::entities::{EventRow, Id, UserEventRow, UserRow};
use crate::machine::{rest, steps_left, then_left, Machine, Step};
use crate::refusal::Refusal;
use crate::store::{Cond, EventTest, Order, Reply, Request, UserEventTest, UserTest};
use vstd::prelude::*;

verus! {

/// What is shown of a user's part in an event.
pub open spec fn shows_participant(p: ParticipantResponse, row: UserEventRow, user: UserRow) -> bool {
    &&& p.user_id == row.user_id
    &&& p.username == user.username
    &&& p.avatar_url == user.avatar_url
    &&& p.bio == user.bio
    &&& p.role@ == row.role.text()
    &&& p.response_status@ == row.response_status.text()
}

/// What is shown of an event.
pub open spec fn shows_event(
    shown: EventResponse,
    event: EventRow,
    participants: Vec<ParticipantResponse>,
) -> bool {
    &&& shown.id == event.id
    &&& shown.creator_id == event.creator_id
    &&& shown.date@ == event.date.text()
    &&& shown.title == event.title
    &&& shown.description == event.description
    &&& shown.location == event.location
    &&& shown.status@ == event.status.text()
    &&& shown.wish_place_id == event.wish_place_id
    &&& shown.memory_image_base64 == event.memory_image_base64
    &&& shown.created_at@ == event.created_at.text()
    &&& shown.participants == participants
}

fn participant_response(row: &UserEventRow, user: UserRow) -> (r: ParticipantResponse)
    ensures
        shows_participant(r, *row, user),
{
    ParticipantResponse {
        user_id: row.user_id,
        username: user.username,
        avatar_url: user.avatar_url,
        bio: user.bio,
        role: row.role.to_string(),
        response_status: row.response_status.to_string(),
    }
}

/// What is shown of an event, from its row and the people in it.
pub fn event_response(event: EventRow, participants: Vec<ParticipantResponse>) -> (r: EventResponse)
    ensures
        shows_event(r, event, participants),
{
    EventResponse {
        id: event.id,
        creator_id: event.creator_id,
        date: event.date.to_string(),
        title: event.title,
        description: event.description,
        location: event.location,
        status: event.status.to_string(),
        wish_place_id: event.wish_place_id,
        memory_image_base64: event.memory_image_base64,
        created_at: event.created_at.to_rfc3339(),
        participants,
    }
}

/// Whether every participant that is shown has accepted.
pub open spec fn all_accepted(participants: Seq<ParticipantResponse>) -> bool {
    forall|i: int|
        0 <= i < participants.len() ==> (#[trigger] participants[i]).response_status@
            == "accepted"@
}

/// Whether every participant that is shown has accepted.
pub fn have_all_accepted(participants: &Vec<ParticipantResponse>) -> (r: bool)
    ensures
        r == all_accepted(participants@),
{
    let accepted = "accepted".to_string();
    for i in 0..participants.len()
        invariant
            accepted@ == "accepted"@,
            forall|j: int|
                0 <= j < i ==> (#[trigger] participants@[j]).response_status@ == "accepted"@,
    {
        if participants[i].response_status != accepted {
            return false;
        }
    }
    true
}

/// Reads the people in an event, in the order of their identifiers. A user who
/// cannot be read is left out.
pub enum LoadParticipants {
    Rows { event_id: Id },
    People { rows: Vec<UserEventRow>, at: usize, found: Vec<ParticipantResponse> },
}

impl LoadParticipants {
    /// The rows from `at` on are still to be read; those before gave `found`.
    pub open spec fn goes_on(
        rows: Vec<UserEventRow>,
        at: int,
        found: Seq<ParticipantResponse>,
        step: Step<LoadParticipants, Vec<ParticipantResponse>>,
    ) -> bool {
        if at < rows@.len() {
            step matches Step::Ask(LoadParticipants::People { rows: r, at: a, found: f }, _) && r
                == rows && a == at && f@ == found
        } else {
            step matches Step::Done(Ok(f)) && f@ == found
        }
    }

    fn go_on(rows: Vec<UserEventRow>, at: usize, found: Vec<ParticipantResponse>) -> (step: Step<
        LoadParticipants,
        Vec<ParticipantResponse>,
    >)
        ensures
            LoadParticipants::goes_on(rows, at as int, found@, step),
            step matches Step::Ask(m, request) ==> m.asking(request),
    {
        if at < rows.len() {
            let request = Request::OneUser(Cond::is(UserTest::Id(rows[at].user_id)));
            Step::Ask(LoadParticipants::People { rows, at, found }, request)
        } else {
            Step::Done(Ok(found))
        }
    }
}

impl Machine for LoadParticipants {
    type Out = Vec<ParticipantResponse>;

    open spec fn asking(self, request: Request) -> bool {
        match self {
            LoadParticipants::Rows { event_id } => {
                &&& request matches Request::AllUserEvents(c, Order::Ascending)
                &&& c.means(|row: UserEventRow| row.event_id == event_id)
            },
            LoadParticipants::People { rows, at, found } => {
                &&& at < rows@.len()
                &&& request matches Request::OneUser(c)
                &&& c.means(|user: UserRow| user.id == rows@[at as int].user_id)
            },
        }
    }

    open spec fn next(self, reply: Reply, step: Step<Self, Vec<ParticipantResponse>>) -> bool {
        match self {
            LoadParticipants::Rows { event_id } => match reply {
                Reply::UserEvents(rows) => LoadParticipants::goes_on(rows, 0, Seq::empty(), step),
                _ => step.refused(Refusal::Internal),
            },
            LoadParticipants::People { rows, at, found } => match reply {
                Reply::User(Some(user)) if at < rows@.len() => exists|p: ParticipantResponse|
                    #![trigger shows_participant(p, rows@[at as int], user)]
                    {
                        &&& shows_participant(p, rows@[at as int], user)
                        &&& LoadParticipants::goes_on(rows, at + 1, found@.push(p), step)
                    },
                _ => LoadParticipants::goes_on(rows, at + 1, found@, step),
            },
        }
    }

    open spec fn left(self) -> (nat, nat, nat, nat, nat) {
        match self {
            LoadParticipants::Rows { .. } => steps_left(1),
            LoadParticipants::People { rows, at, .. } => then_left(
                0,
                steps_left(rest(rows@.len(), at)),
            ),
        }
    }

    proof fn nears_end(self, reply: Reply, step: Step<Self, Vec<ParticipantResponse>>) {
    }

    fn resume(self, reply: Reply) -> (step: Step<Self, Vec<ParticipantResponse>>) {
        match self {
            LoadParticipants::Rows { event_id } => match reply {
                Reply::UserEvents(rows) => {
                    let found = Vec::new();
                    LoadParticipants::go_on(rows, 0, found)
                },
                _ => Step::Done(Err(Refusal::Internal)),
            },
            LoadParticipants::People { rows, at, found } => {
                if at >= rows.len() {
                    return Step::Done(Ok(found));
                }
                let mut found = found;
                match reply {
                    Reply::User(Some(user)) => {
                        let p = participant_response(&rows[at], user);
                        assert(shows_participant(p, rows@[at as int], user));
                        found.push(p);
                    },
                    _ => {},
                }
                LoadParticipants::go_on(rows, at + 1, found)
            },
        }
    }
}

/// Asks for the people in an event.
pub fn load_participants(event_id: Id) -> (step: Step<LoadParticipants, Vec<ParticipantResponse>>)
    ensures
        step.waits_at(LoadParticipants::Rows { event_id }),
        step matches Step::Ask(m, request) && m.asking(request),
{
    Step::Ask(
        LoadParticipants::Rows { event_id },
        Request::AllUserEvents(Cond::is(UserEventTest::EventId(event_id)), Order::Ascending),
    )
}

/// Reads an event with the people in it.
pub enum LoadEvent {
    Event { id: Id },
    Participants { event: EventRow, load: LoadParticipants },
}

impl Machine for LoadEvent {
    type Out = EventResponse;

    open spec fn asking(self, request: Request) -> bool {
        match self {
            LoadEvent::Event { id } => {
                &&& request matches Request::OneEvent(c)
                &&& c.means(|event: EventRow| event.id == id)
            },
            LoadEvent::Participants { event, load } => load.asking(request),
        }
    }

    open spec fn next(self, reply: Reply, step: Step<Self, EventResponse>) -> bool {
        match self {
            LoadEvent::Event { id } => match reply {
                Reply::Event(Some(event)) => step.waits_at(
                    LoadEvent::Participants { event, load: LoadParticipants::Rows { event_id: id } },
                ),
                Reply::Event(None) => step.refused(Refusal::EventNotFound),
                _ => step.refused(Refusal::Internal),
            },
            LoadEvent::Participants { event, load } => match step {
                Step::Ask(LoadEvent::Participants { event: e, load: l }, request) => e == event
                    && load.next(reply, Step::Ask(l, request)),
                Step::Done(Ok(shown)) => shows_event(shown, event, shown.participants)
                    && load.next(reply, Step::Done(Ok(shown.participants))),
                Step::Done(Err(why)) => load.next(reply, Step::Done(Err(why))),
                _ => false,
            },
        }
    }

    open spec fn left(self) -> (nat, nat, nat, nat, nat) {
        match self {
            LoadEvent::Event { .. } => steps_left(2),
            LoadEvent::Participants { load, .. } => load.left(),
        }
    }

    proof fn nears_end(self, reply: Reply, step: Step<Self, EventResponse>) {
        if let LoadEvent::Participants { event, load } = self {
            match step {
                Step::Ask(LoadEvent::Participants { event: _, load: l }, request) => {
                    load.nears_end(reply, Step::Ask(l, request));
                },
                _ => {},
            }
        }
    }

    fn resume(self, reply: Reply) -> (step: Step<Self, EventResponse>) {
        match self {
            LoadEvent::Event { id } => match reply {
                Reply::Event(Some(event)) => match load_participants(id) {
                    Step::Ask(load, request) => Step::Ask(
                        LoadEvent::Participants { event, load },
                        request,
                    ),
                    Step::Done(r) => Step::Done(Err(Refusal::Internal)),
                },
                Reply::Event(None) => Step::Done(Err(Refusal::EventNotFound)),
                _ => Step::Done(Err(Refusal::Internal)),
            },
            LoadEvent::Participants { event, load } => match load.resume(reply) {
                Step::Ask(load, request) => Step::Ask(
                    LoadEvent::Participants { event, load },
                    request,
                ),
                Step::Done(Ok(participants)) => Step::Done(Ok(event_response(event, participants))),
                Step::Done(Err(why)) => Step::Done(Err(why)),
            },
        }
    }
}

/// The request with which reading an event begins.
pub fn load_event_response(id: Id) -> (request: Request)
    ensures
        (LoadEvent::Event { id }).asking(request),
{
    Request::OneEvent(Cond::is(EventTest::Id(id)))
}

/// Reads events one after the other, each with the people in it.
pub struct LoadEvents {
    pub ids: Vec<Id>,
    pub at: usize,
    pub load: LoadEvent,
    pub found: Vec<EventResponse>,
}

impl LoadEvents {
    /// The events from `at` on are still to be read; those before gave `found`.
    pub open spec fn goes_on(
        ids: Vec<Id>,
        at: int,
        found: Seq<EventResponse>,
        step: Step<LoadEvents, Vec<EventResponse>>,
    ) -> bool {
        if at < ids@.len() {
            &&& step matches Step::Ask(m, _)
            &&& m.ids == ids
            &&& m.at == at
            &&& m.load == LoadEvent::Event { id: ids@[at] }
            &&& m.found@ == found
        } else {
            step matches Step::Done(Ok(f)) && f@ == found
        }
    }

    fn go_on(ids: Vec<Id>, at: usize, found: Vec<EventResponse>) -> (step: Step<
        LoadEvents,
        Vec<EventResponse>,
    >)
        ensures
            LoadEvents::goes_on(ids, at as int, found@, step),
            step matches Step::Ask(m, request) ==> m.asking(request),
    {
        if at < ids.len() {
            let id: Id = ids[at];
            let request = load_event_response(id);
            Step::Ask(LoadEvents { ids, at, load: LoadEvent::Event { id }, found }, request)
        } else {
            Step::Done(Ok(found))
        }
    }

    /// Begins to read the events of `rows`, in their order.
    pub fn begin(rows: &Vec<EventRow>) -> (step: Step<LoadEvents, Vec<EventResponse>>)
        ensures
            LoadEvents::begun(rows@, step),
            step matches Step::Ask(m, request) ==> m.asking(request),
    {
        let mut ids: Vec<Id> = Vec::new();
        for i in 0..rows.len()
            invariant
                ids@ == rows@.take(i as int).map_values(|row: EventRow| row.id),
        {
            ids.push(rows[i].id);
            assert(rows@.take(i + 1).map_values(|row: EventRow| row.id) =~= rows@.take(
                i as int,
            ).map_values(|row: EventRow| row.id).push(rows@[i as int].id));
        }
        assert(rows@.take(rows@.len() as int) == rows@);
        LoadEvents::go_on(ids, 0, Vec::new())
    }

    /// None of the events of `rows` has been read.
    pub open spec fn begun(
        rows: Seq<EventRow>,
        step: Step<LoadEvents, Vec<EventResponse>>,
    ) -> bool {
        match step {
            Step::Ask(m, _) => {
                &&& m.ids@ == rows.map_values(|row: EventRow| row.id)
                &&& LoadEvents::goes_on(m.ids, 0, Seq::empty(), step)
            },
            Step::Done(Ok(found)) => rows.len() == 0 && found@.len() == 0,
            Step::Done(Err(_)) => false,
        }
    }
}

impl Machine for LoadEvents {
    type Out = Vec<EventResponse>;

    open spec fn asking(self, request: Request) -> bool {
        self.load.asking(request)
    }

    open spec fn next(self, reply: Reply, step: Step<Self, Vec<EventResponse>>) -> bool {
        match step {
            Step::Ask(m, request) if m.at == self.at => {
                &&& m.ids == self.ids
                &&& m.found == self.found
                &&& self.load.next(reply, Step::Ask(m.load, request))
            },
            Step::Done(Err(why)) => self.load.next(reply, Step::Done(Err(why))),
            _ => exists|shown: EventResponse|
                {
                    &&& #[trigger] self.load.next(reply, Step::Done(Ok(shown)))
                    &&& LoadEvents::goes_on(self.ids, self.at + 1, self.found@.push(shown), step)
                },
        }
    }

    open spec fn left(self) -> (nat, nat, nat, nat, nat) {
        then_left(rest(self.ids@.len(), self.at), self.load.left())
    }

    proof fn nears_end(self, reply: Reply, step: Step<Self, Vec<EventResponse>>) {
        match step {
            Step::Ask(m, request) if m.at == self.at => {
                self.load.nears_end(reply, Step::Ask(m.load, request));
            },
            _ => {},
        }
    }

    fn resume(self, reply: Reply) -> (step: Step<Self, Vec<EventResponse>>) {
        let LoadEvents { ids, at, load, found } = self;
        match load.resume(reply) {
            Step::Ask(load, request) => Step::Ask(LoadEvents { ids, at, load, found }, request),
            Step::Done(Ok(shown)) => {
                let mut found = found;
                found.push(shown);
                if at >= ids.len() {
                    Step::Done(Ok(found))
                } else {
                    LoadEvents::go_on(ids, at + 1, found)
                }
            },
            Step::Done(Err(why)) => Step::Done(Err(why)),
        }
    }
}

} // verus!
