//! What is said of an event and of the people in it.

use crate::controllers::event_controller::load::{shows_event, shows_participant};
use crate::controllers::event_controller::show::{
    get_event, get_event_participants, GetEvent, GetEventParticipants,
};
use crate::controllers::models::{AuthUser, EventResponse, ParticipantResponse};
use crate::entities::{EventRow, Id, UserEventRow, UserRow};
use crate::laws::reading::{people_of, shows_people, shows_stored_event};
use crate::laws::viewing::{get_event_participants_runs, get_event_runs};
use crate::machine::{Machine, Step};
use crate::model::{begun, lists, parts_in_order, runs, Running, Tables};
use crate::store::Order;
use crate::time::{day_text, rfc3339_text};
use vstd::prelude::*;

verus! {

/// An event is shown with the fields of its row: the day as `YYYY-MM-DD`, the
/// status by its name, the time of creation as RFC 3339 writes it.
pub proof fn event_is_shown_field_by_field(
    event: EventRow,
    participants: Vec<ParticipantResponse>,
    shown: EventResponse,
)
    requires
        shows_event(shown, event, participants),
    ensures
        shown.id == event.id,
        shown.creator_id == event.creator_id,
        shown.date@ == day_text(event.date.ymd().0, event.date.ymd().1, event.date.ymd().2),
        shown.title == event.title,
        shown.description == event.description,
        shown.location == event.location,
        event.status is Pending ==> shown.status@ == "pending"@,
        event.status is Confirmed ==> shown.status@ == "confirmed"@,
        event.status is Completed ==> shown.status@ == "completed"@,
        event.status is Canceled ==> shown.status@ == "canceled"@,
        shown.wish_place_id == event.wish_place_id,
        shown.memory_image_base64 == event.memory_image_base64,
        shown.created_at@ == rfc3339_text(
            event.created_at.instant().0,
            event.created_at.instant().1,
            event.created_at.offset(),
        ),
        shown.participants == participants,
{
}

/// Somebody in an event is shown with the fields of their user's row, and with the
/// names of their role and of their response.
pub proof fn participant_is_shown_field_by_field(
    row: UserEventRow,
    user: UserRow,
    shown: ParticipantResponse,
)
    requires
        shows_participant(shown, row, user),
    ensures
        shown.user_id == row.user_id,
        shown.username == user.username,
        shown.avatar_url == user.avatar_url,
        shown.bio == user.bio,
        row.role is Owner ==> shown.role@ == "owner"@,
        row.role is Participant ==> shown.role@ == "participant"@,
        row.response_status is Pending ==> shown.response_status@ == "pending"@,
        row.response_status is Accepted ==> shown.response_status@ == "accepted"@,
        row.response_status is Declined ==> shown.response_status@ == "declined"@,
{
}

/// Which of the parts `rows` the people are that are shown of them.
proof fn places_of_people(
    users: Map<Id, UserRow>,
    rows: Seq<UserEventRow>,
    people: Seq<ParticipantResponse>,
) -> (at: Seq<int>)
    requires
        people_of(users, rows, people),
    ensures
        at.len() == people.len(),
        forall|i: int, j: int| 0 <= i < j < at.len() ==> at[i] < at[j],
        forall|i: int|
            0 <= i < at.len() ==> {
                &&& 0 <= #[trigger] at[i] < rows.len()
                &&& users.dom().contains(rows[at[i]].user_id)
                &&& shows_participant(people[i], rows[at[i]], users[rows[at[i]].user_id])
            },
        forall|j: int|
            0 <= j < rows.len() && users.dom().contains((#[trigger] rows[j]).user_id)
                ==> at.contains(j),
    decreases rows.len(),
{
    if rows.len() == 0 {
        Seq::empty()
    } else {
        let fewer = rows.drop_last();
        let last = rows.len() - 1;
        assert(forall|j: int| 0 <= j < last ==> #[trigger] fewer[j] == rows[j]);
        if users.dom().contains(rows.last().user_id) {
            let before = places_of_people(users, fewer, people.drop_last());
            let at = before.push(last);
            assert forall|j: int|
                0 <= j < rows.len() && users.dom().contains(
                    (#[trigger] rows[j]).user_id,
                ) implies at.contains(j) by {
                if j < last {
                    assert(fewer[j] == rows[j]);
                    let i = choose|i: int| 0 <= i < before.len() && before[i] == j;
                    assert(at[i] == j);
                } else {
                    assert(at[before.len() as int] == j);
                }
            }
            at
        } else {
            let at = places_of_people(users, fewer, people);
            assert forall|j: int|
                0 <= j < rows.len() && users.dom().contains(
                    (#[trigger] rows[j]).user_id,
                ) implies at.contains(j) by {
                assert(fewer[j] == rows[j]);
            }
            at
        }
    }
}

/// The people shown of an event are the parts in it of known users, one by one
/// and in the order of the users: `keys` are the parts.
pub proof fn people_are_the_parts(
    t: Tables,
    id: Id,
    people: Seq<ParticipantResponse>,
) -> (keys: Seq<Id>)
    requires
        t.keyed(),
        shows_people(t, id, people),
    ensures
        keys.len() == people.len(),
        keys.no_duplicates(),
        forall|k: Id| #[trigger]
            keys.contains(k) <==> t.user_events.dom().contains(k) && t.user_events[k].event_id
                == id && t.users.dom().contains(t.user_events[k].user_id),
        forall|i: int|
            0 <= i < people.len() ==> {
                let row = t.user_events[#[trigger] keys[i]];
                let user = t.users[row.user_id];
                let shown = people[i];
                &&& shown.user_id == row.user_id
                &&& shown.username == user.username
                &&& shown.avatar_url == user.avatar_url
                &&& shown.bio == user.bio
                &&& row.role is Owner ==> shown.role@ == "owner"@
                &&& row.role is Participant ==> shown.role@ == "participant"@
                &&& row.response_status is Pending ==> shown.response_status@ == "pending"@
                &&& row.response_status is Accepted ==> shown.response_status@ == "accepted"@
                &&& row.response_status is Declined ==> shown.response_status@ == "declined"@
            },
        forall|i: int, j: int|
            0 <= i < j < people.len() ==> (#[trigger] people[i]).user_id <= (
            #[trigger] people[j]).user_id,
{
    let of_event = |row: UserEventRow| row.event_id == id;
    let rows = choose|rows: Seq<UserEventRow>|
        {
            &&& lists(t.user_events, |row: UserEventRow| row.event_id == id, rows)
            &&& parts_in_order(rows, Order::Ascending)
            &&& #[trigger] people_of(t.users, rows, people)
        };
    let at = places_of_people(t.users, rows, people);
    let keys = Seq::new(at.len(), |i: int| rows[at[i]].id);
    assert forall|i: int| 0 <= i < people.len() implies {
        &&& t.user_events.dom().contains(#[trigger] keys[i])
        &&& t.user_events[keys[i]] == rows[at[i]]
        &&& rows[at[i]].event_id == id
        &&& shows_participant(people[i], rows[at[i]], t.users[rows[at[i]].user_id])
        &&& t.users.dom().contains(rows[at[i]].user_id)
        &&& people[i].user_id == rows[at[i]].user_id
    } by {
        assert(0 <= at[i] < rows.len());
        assert(t.user_events.dom().contains(rows[at[i]].id));
    }
    assert forall|i: int, j: int| 0 <= i < j < keys.len() implies keys[i] != keys[j] by {
        assert(0 <= at[i] && at[i] < at[j] && at[j] < rows.len());
        assert(rows[at[i]].id != rows[at[j]].id);
    }
    assert forall|k: Id| #[trigger]
        keys.contains(k) <==> t.user_events.dom().contains(k) && t.user_events[k].event_id == id
            && t.users.dom().contains(t.user_events[k].user_id) by {
        if keys.contains(k) {
            let i = choose|i: int| 0 <= i < keys.len() && keys[i] == k;
            assert(t.user_events.dom().contains(keys[i]));
        }
        if t.user_events.dom().contains(k) && t.user_events[k].event_id == id
            && t.users.dom().contains(t.user_events[k].user_id) {
            let j = choose|j: int| 0 <= j < rows.len() && (#[trigger] rows[j]) == t.user_events[k];
            assert(at.contains(j));
            let i = choose|i: int| 0 <= i < at.len() && at[i] == j;
            assert(keys[i] == k);
        }
    }
    assert forall|i: int, j: int| 0 <= i < j < people.len() implies (#[trigger] people[i]).user_id
        <= (#[trigger] people[j]).user_id by {
        assert(keys[i] == keys[i] && keys[j] == keys[j]);
        assert(at[i] < at[j]);
        assert(rows[at[i]].user_id <= rows[at[j]].user_id);
    }
    keys
}

/// Those who have a part in an event see it with the fields of its row. Others are
/// refused, and so is everybody where there is no such event.
pub proof fn an_event_is_seen_by_those_in_it(
    n: nat,
    t: Tables,
    auth: AuthUser,
    id: Id,
    first: Step<GetEvent, EventResponse>,
    last: Running<GetEvent>,
)
    requires
        t.keyed(),
        call_ensures(get_event, (auth, id), first),
        runs(false, n, begun(first, t), last),
        last.step is Done,
    ensures
        last.session.stored == t,
        ({
            let takes_part = exists|k: Id| #[trigger]
                t.user_events.dom().contains(k) && t.user_events[k].event_id == id
                    && t.user_events[k].user_id == auth.user_id;
            let event = t.events[id];
            match last.step {
                Step::Done(Ok(shown)) => {
                    &&& t.events.dom().contains(id) && takes_part
                    &&& shown.id == id
                    &&& shown.creator_id == event.creator_id
                    &&& shown.date@ == day_text(
                        event.date.ymd().0,
                        event.date.ymd().1,
                        event.date.ymd().2,
                    )
                    &&& shown.title == event.title
                    &&& shown.description == event.description
                    &&& shown.location == event.location
                    &&& event.status is Pending ==> shown.status@ == "pending"@
                    &&& event.status is Confirmed ==> shown.status@ == "confirmed"@
                    &&& event.status is Completed ==> shown.status@ == "completed"@
                    &&& event.status is Canceled ==> shown.status@ == "canceled"@
                    &&& shown.wish_place_id == event.wish_place_id
                    &&& shown.memory_image_base64 == event.memory_image_base64
                    &&& shown.created_at@ == rfc3339_text(
                        event.created_at.instant().0,
                        event.created_at.instant().1,
                        event.created_at.offset(),
                    )
                    &&& shows_people(t, id, shown.participants@)
                },
                Step::Done(Err(why)) => if t.events.dom().contains(id) {
                    !takes_part && why is EventForbidden
                } else {
                    why is EventMissing
                },
                _ => false,
            }
        }),
{
    get_event_runs(n, t, auth.user_id, id, first, last);
}

/// Those who have a part in an event see the people in it. Others are refused, and
/// so is everybody where there is no such event.
pub proof fn the_people_are_seen_by_those_in_it(
    n: nat,
    t: Tables,
    auth: AuthUser,
    id: Id,
    first: Step<GetEventParticipants, Vec<ParticipantResponse>>,
    last: Running<GetEventParticipants>,
)
    requires
        t.keyed(),
        call_ensures(get_event_participants, (auth, id), first),
        runs(false, n, begun(first, t), last),
        last.step is Done,
    ensures
        last.session.stored == t,
        ({
            let takes_part = exists|k: Id| #[trigger]
                t.user_events.dom().contains(k) && t.user_events[k].event_id == id
                    && t.user_events[k].user_id == auth.user_id;
            match last.step {
                Step::Done(Ok(people)) => t.events.dom().contains(id) && takes_part
                    && shows_people(t, id, people@),
                Step::Done(Err(why)) => if t.events.dom().contains(id) {
                    !takes_part && why is EventForbidden
                } else {
                    why is EventMissing
                },
                _ => false,
            }
        }),
{
    get_event_participants_runs(n, t, auth.user_id, id, first, last);
}

/// What is shown of a stored event, field by field.
pub proof fn stored_event_is_shown(t: Tables, id: Id, shown: EventResponse)
    requires
        t.keyed(),
        shows_stored_event(t, id, shown),
    ensures
        t.events.dom().contains(id),
        shown.id == id,
        shown.creator_id == t.events[id].creator_id,
        shown.date@ == day_text(
            t.events[id].date.ymd().0,
            t.events[id].date.ymd().1,
            t.events[id].date.ymd().2,
        ),
        shown.title == t.events[id].title,
        shown.description == t.events[id].description,
        shown.location == t.events[id].location,
        t.events[id].status is Pending ==> shown.status@ == "pending"@,
        t.events[id].status is Confirmed ==> shown.status@ == "confirmed"@,
        t.events[id].status is Completed ==> shown.status@ == "completed"@,
        t.events[id].status is Canceled ==> shown.status@ == "canceled"@,
        shown.wish_place_id == t.events[id].wish_place_id,
        shown.memory_image_base64 == t.events[id].memory_image_base64,
        shown.created_at@ == rfc3339_text(
            t.events[id].created_at.instant().0,
            t.events[id].created_at.instant().1,
            t.events[id].created_at.offset(),
        ),
        shows_people(t, id, shown.participants@),
{
}

} // verus!
