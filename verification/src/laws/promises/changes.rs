//! What one request changes in what another shows.

use crate::controllers::event_controller::list::{
    get_events, get_events_on, get_waiting_events_on, ListEvents,
};
use crate::controllers::event_controller::respond::{
    accept_event, decline_event, AcceptEvent, DeclineEvent,
};
use crate::controllers::models::{
    AuthUser, EventResponse, EventScope, EventScopeQuery,
};
use crate::entities::{Id, UserEventResponse, UserEventRow};
use crate::laws::accepting::{accept_event_runs, accepted};
use crate::laws::declining::decline_event_runs;
use crate::laws::promises::answers::{what_accepting_changes, what_declining_changes};
use crate::laws::promises::lists::{
    invited_list_today, upcoming_list, waiting_list,
};
use crate::machine::{Machine, Step};
use crate::model::{begun, runs, Running, Tables};
use crate::refusal::StatusCode;
use crate::time::{day_lt, Date};
use vstd::prelude::*;

verus! {

/// Tables that accepting leads to have keys for their rows if those before had.
proof fn accepting_keeps_keys(t: Tables, u: Tables, me: Id, id: Id)
    requires
        t.keyed(),
        accepted(t, u, me, id),
    ensures
        u.keyed(),
{
}

/// Accepting an invitation leaves the list of invitations as it was: the same events are
/// on it before and after.
pub proof fn accepting_keeps_the_invited_list(
    n: nat,
    k: nat,
    l: nat,
    t: Tables,
    auth: AuthUser,
    id: Id,
    query: EventScopeQuery,
    before: Step<ListEvents, Vec<EventResponse>>,
    listed: Running<ListEvents>,
    first: Step<AcceptEvent, EventResponse>,
    last: Running<AcceptEvent>,
    after: Step<ListEvents, Vec<EventResponse>>,
    listed_after: Running<ListEvents>,
)
    requires
        t.keyed(),
        query.scope == Some(EventScope::Invited),
        call_ensures(get_events, (auth, query), before),
        runs(false, n, begun(before, t), listed),
        listed.step is Done,
        call_ensures(accept_event, (auth, id), first),
        runs(false, k, begun(first, t), last),
        last.step matches Step::Done(Ok(_)),
        call_ensures(get_events, (auth, query), after),
        runs(false, l, begun(after, last.session.stored), listed_after),
        listed_after.step is Done,
    ensures
        match (listed.step, listed_after.step) {
            (Step::Done(Ok(a)), Step::Done(Ok(b))) => forall|e: Id| #[trigger]
                t.events.dom().contains(e) ==> ((exists|i: int|
                    0 <= i < a@.len() && (#[trigger] a@[i]).id == e) <==> (exists|i: int|
                    0 <= i < b@.len() && (#[trigger] b@[i]).id == e)),
            _ => false,
        },
{
    let me = auth.user_id;
    let u = last.session.stored;
    accept_event_runs(k, t, me, id, first, last);
    what_accepting_changes(t, u, me, id);
    accepting_keeps_keys(t, u, me, id);
    invited_list_today(n, t, auth, query, before, listed);
    invited_list_today(l, u, auth, query, after, listed_after);
    let part = choose|part: Id|
        {
            &&& #[trigger] t.user_events.dom().contains(part)
            &&& t.user_events[part].event_id == id
            &&& t.user_events[part].user_id == me
            &&& t.user_events[part].role is Participant
            &&& t.user_events[part].response_status is Pending
            &&& u.user_events == t.user_events.insert(
                part,
                UserEventRow {
                    response_status: UserEventResponse::Accepted,
                    ..t.user_events[part]
                },
            )
        };
    assert forall|e: Id| #[trigger] t.events.dom().contains(e) implies ((exists|r: Id| #[trigger]
        t.user_events.dom().contains(r) && t.user_events[r].event_id == e
            && t.user_events[r].user_id == me && t.user_events[r].role is Participant && (
        t.user_events[r].response_status is Pending || t.user_events[r].response_status
            is Accepted)) <==> (exists|r: Id| #[trigger]
        u.user_events.dom().contains(r) && u.user_events[r].event_id == e
            && u.user_events[r].user_id == me && u.user_events[r].role is Participant && (
        u.user_events[r].response_status is Pending || u.user_events[r].response_status
            is Accepted))) by {
        if exists|r: Id| #[trigger]
            t.user_events.dom().contains(r) && t.user_events[r].event_id == e
                && t.user_events[r].user_id == me && t.user_events[r].role is Participant && (
            t.user_events[r].response_status is Pending || t.user_events[r].response_status
                is Accepted) {
            let r = choose|r: Id| #[trigger]
                t.user_events.dom().contains(r) && t.user_events[r].event_id == e
                    && t.user_events[r].user_id == me && t.user_events[r].role is Participant && (
                t.user_events[r].response_status is Pending || t.user_events[r].response_status
                    is Accepted);
            assert(u.user_events.dom().contains(r));
        }
        if exists|r: Id| #[trigger]
            u.user_events.dom().contains(r) && u.user_events[r].event_id == e
                && u.user_events[r].user_id == me && u.user_events[r].role is Participant && (
            u.user_events[r].response_status is Pending || u.user_events[r].response_status
                is Accepted) {
            let r = choose|r: Id| #[trigger]
                u.user_events.dom().contains(r) && u.user_events[r].event_id == e
                    && u.user_events[r].user_id == me && u.user_events[r].role is Participant && (
                u.user_events[r].response_status is Pending || u.user_events[r].response_status
                    is Accepted);
            assert(t.user_events.dom().contains(r));
        }
    }
    assert forall|e: Id| #[trigger] t.events.dom().contains(e) implies u.events.dom().contains(
        e,
    ) by {}
}

/// Accepting the only invitation that a user has to an event takes the event off the
/// list of those that wait for an answer, and, as long as its day is not over, puts it on
/// the list of what is to come.
pub proof fn accepting_moves_the_event(
    k: nat,
    l: nat,
    n: nat,
    t: Tables,
    auth: AuthUser,
    id: Id,
    today: Date,
    query: EventScopeQuery,
    first: Step<AcceptEvent, EventResponse>,
    last: Running<AcceptEvent>,
    waiting: Step<ListEvents, Vec<EventResponse>>,
    waited: Running<ListEvents>,
    coming: Step<ListEvents, Vec<EventResponse>>,
    came: Running<ListEvents>,
)
    requires
        t.keyed(),
        forall|p: Id, q: Id|
            #![trigger t.user_events.dom().contains(p), t.user_events.dom().contains(q)]
            t.user_events.dom().contains(p) && t.user_events.dom().contains(q)
                && t.user_events[p].event_id == t.user_events[q].event_id
                && t.user_events[p].user_id == t.user_events[q].user_id ==> p == q,
        call_ensures(accept_event, (auth, id), first),
        runs(false, k, begun(first, t), last),
        last.step matches Step::Done(Ok(_)),
        call_ensures(get_waiting_events_on, (auth, today), waiting),
        runs(false, l, begun(waiting, last.session.stored), waited),
        waited.step is Done,
        query.scope == Some(EventScope::Upcoming),
        call_ensures(get_events_on, (auth, query, today), coming),
        runs(false, n, begun(coming, last.session.stored), came),
        came.step is Done,
    ensures
        waited.step matches Step::Done(Ok(found)) && forall|i: int|
            0 <= i < found@.len() ==> (#[trigger] found@[i]).id != id,
        came.step matches Step::Done(Ok(found)) && ((exists|i: int|
            0 <= i < found@.len() && (#[trigger] found@[i]).id == id) <==> !day_lt(
            t.events[id].date.ymd(),
            today.ymd(),
        )),
{
    let me = auth.user_id;
    let u = last.session.stored;
    accept_event_runs(k, t, me, id, first, last);
    what_accepting_changes(t, u, me, id);
    accepting_keeps_keys(t, u, me, id);
    waiting_list(l, u, auth, today, waiting, waited);
    upcoming_list(n, u, auth, query, today, coming, came);
    let part = choose|part: Id|
        {
            &&& #[trigger] t.user_events.dom().contains(part)
            &&& t.user_events[part].event_id == id
            &&& t.user_events[part].user_id == me
            &&& t.user_events[part].role is Participant
            &&& t.user_events[part].response_status is Pending
            &&& u.user_events == t.user_events.insert(
                part,
                UserEventRow {
                    response_status: UserEventResponse::Accepted,
                    ..t.user_events[part]
                },
            )
        };
    assert(u.user_events.dom().contains(part));
    assert(u.events.dom().contains(id));
    assert(u.events[id].date == t.events[id].date && u.events[id].status.open());
    assert forall|r: Id| #[trigger]
        u.user_events.dom().contains(r) && u.user_events[r].event_id == id
            && u.user_events[r].user_id == me implies r == part by {
        assert(t.user_events.dom().contains(r));
    }
}

/// Declining the only invitation that a user has to an event takes the event off the
/// list of invitations.
pub proof fn declining_takes_the_event_off_the_invited_list(
    k: nat,
    l: nat,
    t: Tables,
    auth: AuthUser,
    id: Id,
    query: EventScopeQuery,
    first: Step<DeclineEvent, StatusCode>,
    last: Running<DeclineEvent>,
    after: Step<ListEvents, Vec<EventResponse>>,
    listed: Running<ListEvents>,
)
    requires
        t.keyed(),
        forall|p: Id, q: Id|
            #![trigger t.user_events.dom().contains(p), t.user_events.dom().contains(q)]
            t.user_events.dom().contains(p) && t.user_events.dom().contains(q)
                && t.user_events[p].event_id == t.user_events[q].event_id
                && t.user_events[p].user_id == t.user_events[q].user_id ==> p == q,
        call_ensures(decline_event, (auth, id), first),
        runs(false, k, begun(first, t), last),
        last.step matches Step::Done(Ok(_)),
        query.scope == Some(EventScope::Invited),
        call_ensures(get_events, (auth, query), after),
        runs(false, l, begun(after, last.session.stored), listed),
        listed.step is Done,
    ensures
        listed.step matches Step::Done(Ok(found)) && forall|i: int|
            0 <= i < found@.len() ==> (#[trigger] found@[i]).id != id,
{
    let me = auth.user_id;
    let u = last.session.stored;
    decline_event_runs(k, t, me, id, first, last);
    what_declining_changes(t, u, me, id);
    assert(u.busydays.dom().subset_of(t.busydays.dom()));
    vstd::set_lib::lemma_set_subset_finite(t.busydays.dom(), u.busydays.dom());
    invited_list_today(l, u, auth, query, after, listed);
    let part = choose|part: Id|
        {
            &&& #[trigger] t.user_events.dom().contains(part)
            &&& t.user_events[part].event_id == id
            &&& t.user_events[part].user_id == me
            &&& t.user_events[part].role is Participant
            &&& t.user_events[part].response_status is Pending
                || t.user_events[part].response_status is Accepted
            &&& u.user_events == t.user_events.insert(
                part,
                UserEventRow {
                    response_status: UserEventResponse::Declined,
                    ..t.user_events[part]
                },
            )
        };
    assert forall|r: Id| #[trigger]
        u.user_events.dom().contains(r) && u.user_events[r].event_id == id
            && u.user_events[r].user_id == me implies r == part by {
        assert(t.user_events.dom().contains(r));
    }
}

} // verus!
