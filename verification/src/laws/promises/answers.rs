//! What answering, canceling and completing an event change, and when they are
//! refused.

use crate::controllers::event_controller::cancel::{cancel_event, CancelEvent};
use crate::controllers::event_controller::finish::{finish_event, finish_event_on, FinishEvent};
use crate::controllers::event_controller::respond::{
    accept_event, decline_event, not_accepted, AcceptEvent, DeclineEvent,
};
use crate::controllers::event_controller::rules::still_invited;
use crate::controllers::models::{AuthUser, EventResponse, FinishEventBody};
use crate::entities::{EventRow, EventStatus, Id, UserEventResponse, UserEventRow};
use crate::laws::accepting::{
    accept_event_is_atomic, accept_event_runs, accepted, accepted_at, unanimous,
};
use crate::laws::canceling::{
    cancel_event_is_atomic, cancel_event_runs, parts_in, without_event,
};
use crate::laws::declining::{
    decline_event_is_atomic, decline_event_runs, declined, declined_at, nobody_left, taken_for,
    taken_from,
};
use crate::laws::finishing::{finish_event_is_atomic, finish_event_runs};
use crate::laws::reading::shows_stored_event;
use crate::machine::{Machine, Step};
use crate::model::{begun, matching, runs, Running, Tables};
use crate::refusal::StatusCode;
use crate::text::white_space;
use crate::time::{day_lt, Date};
use vstd::prelude::*;

verus! {

/// Accepting turns one waiting invitation of the user into an accepted one. While
/// another participant's acceptance is missing, that is all. Once none is, the event
/// is confirmed and the user is taken on its day for it. Nothing else is different.
pub proof fn what_accepting_changes(t: Tables, u: Tables, me: Id, id: Id)
    requires
        t.keyed(),
        accepted(t, u, me, id),
    ensures
        t.events.dom().contains(id),
        t.events[id].status is Pending || t.events[id].status is Confirmed,
        forall|k: Id| #[trigger]
            t.busydays.dom().contains(k) ==> !(t.busydays[k].user_id == me && t.busydays[k].date
                == t.events[id].date),
        u.users == t.users,
        u.friendships == t.friendships,
        u.wish_places == t.wish_places,
        exists|part: Id|
            {
                &&& #[trigger] t.user_events.dom().contains(part)
                &&& t.user_events[part].event_id == id
                &&& t.user_events[part].user_id == me
                &&& t.user_events[part].role is Participant
                &&& t.user_events[part].response_status is Pending
                &&& u.user_events == t.user_events.insert(
                    part,
                    UserEventRow {
                        response_status: UserEventResponse::Accepted,
                        ..t.user_events[part]
                    },
                )
            },
        (exists|k: Id| #[trigger]
            u.user_events.dom().contains(k) && u.user_events[k].event_id == id
                && u.user_events[k].role is Participant && !(u.user_events[k].response_status
                is Accepted)) ==> u.events == t.events && u.busydays == t.busydays,
        (forall|k: Id| #[trigger]
            u.user_events.dom().contains(k) && u.user_events[k].event_id == id
                && u.user_events[k].role is Participant ==> u.user_events[k].response_status
                is Accepted) ==> {
            &&& u.events == t.events.insert(
                id,
                EventRow { status: EventStatus::Confirmed, ..t.events[id] },
            )
            &&& exists|d: Id|
                {
                    &&& #[trigger] u.busydays.dom().contains(d)
                    &&& !t.busydays.dom().contains(d)
                    &&& u.busydays == t.busydays.insert(d, u.busydays[d])
                    &&& u.busydays[d].user_id == me
                    &&& u.busydays[d].date == t.events[id].date
                    &&& u.busydays[d].event_id == Some(id)
                }
        },
{
    let (part, day) = choose|part: Id, day: Id| #[trigger] accepted_at(t, u, me, id, part, day);
    assert(t.user_events.dom().contains(part));
    if unanimous(u.user_events, id) {
        assert(u.busydays.dom().contains(day));
        assert(u.busydays == t.busydays.insert(day, u.busydays[day]));
        assert forall|k: Id| #[trigger]
            u.user_events.dom().contains(k) && u.user_events[k].event_id == id
                && u.user_events[k].role is Participant implies u.user_events[k].response_status
            is Accepted by {
            assert(!not_accepted(id)(u.user_events[k]));
        }
    }
}

/// When accepting is refused, and why: there is no such event; it is completed or
/// canceled; the user has no invitation to it; the user has answered it; the user's
/// day is taken. Nothing is stored then. If none of these holds, it is accepted, and
/// the event is shown as it is then stored.
pub proof fn when_an_invitation_is_accepted(
    n: nat,
    t: Tables,
    auth: AuthUser,
    id: Id,
    first: Step<AcceptEvent, EventResponse>,
    last: Running<AcceptEvent>,
)
    requires
        t.keyed(),
        call_ensures(accept_event, (auth, id), first),
        runs(false, n, begun(first, t), last),
        last.step is Done,
    ensures
        ({
            let me = auth.user_id;
            let exists_open = t.events.dom().contains(id) && (t.events[id].status is Pending
                || t.events[id].status is Confirmed);
            let invited = exists|k: Id| #[trigger]
                t.user_events.dom().contains(k) && t.user_events[k].event_id == id
                    && t.user_events[k].user_id == me && t.user_events[k].role is Participant;
            let waiting = exists|k: Id| #[trigger]
                t.user_events.dom().contains(k) && t.user_events[k].event_id == id
                    && t.user_events[k].user_id == me && t.user_events[k].role is Participant
                    && t.user_events[k].response_status is Pending;
            let taken = exists|k: Id| #[trigger]
                t.busydays.dom().contains(k) && t.busydays[k].user_id == me && t.busydays[k].date
                    == t.events[id].date;
            match last.step {
                Step::Done(Ok(shown)) => {
                    &&& exists_open && waiting && !taken
                    &&& accepted(t, last.session.stored, me, id)
                    &&& shows_stored_event(last.session.stored, id, shown)
                },
                Step::Done(Err(why)) => {
                    &&& last.session.stored == t
                    &&& if !t.events.dom().contains(id) {
                        why is EventNotFound
                    } else if !exists_open {
                        why is EventClosed
                    } else if !invited {
                        why is NoPendingInvitation
                    } else if !waiting {
                        why is InvitationAnswered
                    } else {
                        taken && why is DayReserved
                    }
                },
                _ => false,
            }
        }),
{
    accept_event_runs(n, t, auth.user_id, id, first, last);
}

/// Declining turns one invitation of the user, waiting or accepted, into a declined
/// one. While another participant has not declined, the user's day is free again and
/// a confirmed event is pending again. Once none is left, the event is canceled and
/// every day that was taken for it is free again. Nothing else is different.
pub proof fn what_declining_changes(t: Tables, u: Tables, me: Id, id: Id)
    requires
        t.keyed(),
        declined(t, u, me, id),
    ensures
        t.events.dom().contains(id),
        t.events[id].status is Pending || t.events[id].status is Confirmed,
        u.users == t.users,
        u.friendships == t.friendships,
        u.wish_places == t.wish_places,
        exists|part: Id|
            {
                &&& #[trigger] t.user_events.dom().contains(part)
                &&& t.user_events[part].event_id == id
                &&& t.user_events[part].user_id == me
                &&& t.user_events[part].role is Participant
                &&& t.user_events[part].response_status is Pending
                    || t.user_events[part].response_status is Accepted
                &&& u.user_events == t.user_events.insert(
                    part,
                    UserEventRow {
                        response_status: UserEventResponse::Declined,
                        ..t.user_events[part]
                    },
                )
            },
        forall|k: Id| #[trigger]
            u.busydays.dom().contains(k) ==> t.busydays.dom().contains(k) && u.busydays[k]
                == t.busydays[k],
        (exists|k: Id| #[trigger]
            u.user_events.dom().contains(k) && u.user_events[k].event_id == id
                && u.user_events[k].role is Participant && !(u.user_events[k].response_status
                is Declined)) ==> {
            &&& u.events == t.events.insert(
                id,
                EventRow { status: EventStatus::Pending, ..t.events[id] },
            )
            &&& forall|k: Id| #[trigger]
                t.busydays.dom().contains(k) ==> (u.busydays.dom().contains(k) <==> !(
                t.busydays[k].event_id == Some(id) && t.busydays[k].user_id == me))
        },
        (forall|k: Id| #[trigger]
            u.user_events.dom().contains(k) && u.user_events[k].event_id == id
                && u.user_events[k].role is Participant ==> u.user_events[k].response_status
                is Declined) ==> {
            &&& u.events == t.events.insert(
                id,
                EventRow { status: EventStatus::Canceled, ..t.events[id] },
            )
            &&& forall|k: Id| #[trigger]
                t.busydays.dom().contains(k) ==> (u.busydays.dom().contains(k)
                    <==> t.busydays[k].event_id != Some(id))
        },
{
    let part = choose|part: Id| #[trigger] declined_at(t, u, me, id, part);
    assert(t.user_events.dom().contains(part));
    let left = matching(u.user_events, still_invited(id));
    assert(left.subset_of(u.user_events.dom()));
    vstd::set_lib::lemma_set_subset_finite(u.user_events.dom(), left);
    assert(nobody_left(u.user_events, id) <==> forall|k: Id| #[trigger]
        u.user_events.dom().contains(k) ==> !still_invited(id)(u.user_events[k])) by {
        if nobody_left(u.user_events, id) {
            assert(left =~= Set::<Id>::empty());
            assert forall|k: Id| #[trigger] u.user_events.dom().contains(k) implies !still_invited(
                id,
            )(u.user_events[k]) by {
                assert(!left.contains(k));
            }
        } else {
            assert(left.len() != 0);
            let k = left.choose();
            assert(left.contains(k));
        }
    }
    let gone = if nobody_left(u.user_events, id) {
        taken_for(id)
    } else {
        taken_from(me, id)
    };
    assert forall|k: Id| #[trigger] t.busydays.dom().contains(k) implies (
    u.busydays.dom().contains(k) <==> !gone(t.busydays[k])) by {
        assert(matching(t.busydays, gone).contains(k) <==> gone(t.busydays[k]));
    }
    if exists|k: Id| #[trigger]
        u.user_events.dom().contains(k) && u.user_events[k].event_id == id
            && u.user_events[k].role is Participant && !(u.user_events[k].response_status
            is Declined) {
        let k = choose|k: Id| #[trigger]
            u.user_events.dom().contains(k) && u.user_events[k].event_id == id
                && u.user_events[k].role is Participant && !(u.user_events[k].response_status
                is Declined);
        assert(still_invited(id)(u.user_events[k]));
    } else {
        assert forall|k: Id| #[trigger] u.user_events.dom().contains(k) implies !still_invited(
            id,
        )(u.user_events[k]) by {}
    }
}

/// When declining is refused, and why: there is no such event; it is completed or
/// canceled; the user has no invitation to it, or has declined it. Nothing is stored
/// then. If none of these holds, it is declined.
pub proof fn when_an_invitation_is_declined(
    n: nat,
    t: Tables,
    auth: AuthUser,
    id: Id,
    first: Step<DeclineEvent, StatusCode>,
    last: Running<DeclineEvent>,
)
    requires
        t.keyed(),
        call_ensures(decline_event, (auth, id), first),
        runs(false, n, begun(first, t), last),
        last.step is Done,
    ensures
        ({
            let me = auth.user_id;
            let exists_open = t.events.dom().contains(id) && (t.events[id].status is Pending
                || t.events[id].status is Confirmed);
            let takes_part = exists|k: Id| #[trigger]
                t.user_events.dom().contains(k) && t.user_events[k].event_id == id
                    && t.user_events[k].user_id == me && t.user_events[k].role is Participant && (
                t.user_events[k].response_status is Pending || t.user_events[k].response_status
                    is Accepted);
            match last.step {
                Step::Done(Ok(code)) => {
                    &&& code is NoContent
                    &&& exists_open && takes_part
                    &&& declined(t, last.session.stored, me, id)
                },
                Step::Done(Err(why)) => {
                    &&& last.session.stored == t
                    &&& if !t.events.dom().contains(id) {
                        why is EventNotFound
                    } else if !exists_open {
                        why is EventClosed
                    } else {
                        !takes_part && why is NotParticipant
                    }
                },
                _ => false,
            }
        }),
{
    decline_event_runs(n, t, auth.user_id, id, first, last);
}

/// A request to accept an invitation that is granted has done just this: the invitation
/// is accepted; and once nobody's acceptance is missing, the event is confirmed and the
/// user is taken on its day for it.
pub proof fn accepting_an_invitation_answers_it(
    n: nat,
    t: Tables,
    auth: AuthUser,
    id: Id,
    first: Step<AcceptEvent, EventResponse>,
    last: Running<AcceptEvent>,
)
    requires
        t.keyed(),
        call_ensures(accept_event, (auth, id), first),
        runs(false, n, begun(first, t), last),
        last.step matches Step::Done(Ok(_)),
    ensures
        ({
            let u = last.session.stored;
            let me = auth.user_id;
            &&& t.events.dom().contains(id)
            &&& t.events[id].status is Pending || t.events[id].status is Confirmed
            &&& forall|k: Id| #[trigger]
                t.busydays.dom().contains(k) ==> !(t.busydays[k].user_id == me && t.busydays[k].date
                    == t.events[id].date)
            &&& u.users == t.users
            &&& u.friendships == t.friendships
            &&& u.wish_places == t.wish_places
            &&& exists|part: Id|
                {
                    &&& #[trigger] t.user_events.dom().contains(part)
                    &&& t.user_events[part].event_id == id
                    &&& t.user_events[part].user_id == me
                    &&& t.user_events[part].role is Participant
                    &&& t.user_events[part].response_status is Pending
                    &&& u.user_events == t.user_events.insert(
                        part,
                        UserEventRow {
                            response_status: UserEventResponse::Accepted,
                            ..t.user_events[part]
                        },
                    )
                }
            &&& (exists|k: Id| #[trigger]
                u.user_events.dom().contains(k) && u.user_events[k].event_id == id
                    && u.user_events[k].role is Participant && !(u.user_events[k].response_status
                    is Accepted)) ==> u.events == t.events && u.busydays == t.busydays
            &&& (forall|k: Id| #[trigger]
                u.user_events.dom().contains(k) && u.user_events[k].event_id == id
                    && u.user_events[k].role is Participant ==> u.user_events[k].response_status
                    is Accepted) ==> {
                &&& u.events == t.events.insert(
                    id,
                    EventRow { status: EventStatus::Confirmed, ..t.events[id] },
                )
                &&& exists|d: Id|
                    {
                        &&& #[trigger] u.busydays.dom().contains(d)
                        &&& !t.busydays.dom().contains(d)
                        &&& u.busydays == t.busydays.insert(d, u.busydays[d])
                        &&& u.busydays[d].user_id == me
                        &&& u.busydays[d].date == t.events[id].date
                        &&& u.busydays[d].event_id == Some(id)
                    }
            }
        }),
{
    accept_event_runs(n, t, auth.user_id, id, first, last);
    what_accepting_changes(t, last.session.stored, auth.user_id, id);
}

/// A request to decline an invitation that is granted has done just this: the invitation
/// is declined; the user's day is free again and the event waits for answers; and once
/// nobody is left, the event is canceled and every day that it took is free again.
pub proof fn declining_an_invitation_answers_it(
    n: nat,
    t: Tables,
    auth: AuthUser,
    id: Id,
    first: Step<DeclineEvent, StatusCode>,
    last: Running<DeclineEvent>,
)
    requires
        t.keyed(),
        call_ensures(decline_event, (auth, id), first),
        runs(false, n, begun(first, t), last),
        last.step matches Step::Done(Ok(_)),
    ensures
        ({
            let u = last.session.stored;
            let me = auth.user_id;
            &&& t.events.dom().contains(id)
            &&& t.events[id].status is Pending || t.events[id].status is Confirmed
            &&& u.users == t.users
            &&& u.friendships == t.friendships
            &&& u.wish_places == t.wish_places
            &&& exists|part: Id|
                {
                    &&& #[trigger] t.user_events.dom().contains(part)
                    &&& t.user_events[part].event_id == id
                    &&& t.user_events[part].user_id == me
                    &&& t.user_events[part].role is Participant
                    &&& t.user_events[part].response_status is Pending
                        || t.user_events[part].response_status is Accepted
                    &&& u.user_events == t.user_events.insert(
                        part,
                        UserEventRow {
                            response_status: UserEventResponse::Declined,
                            ..t.user_events[part]
                        },
                    )
                }
            &&& forall|k: Id| #[trigger]
                u.busydays.dom().contains(k) ==> t.busydays.dom().contains(k) && u.busydays[k]
                    == t.busydays[k]
            &&& (exists|k: Id| #[trigger]
                u.user_events.dom().contains(k) && u.user_events[k].event_id == id
                    && u.user_events[k].role is Participant && !(u.user_events[k].response_status
                    is Declined)) ==> {
                &&& u.events == t.events.insert(
                    id,
                    EventRow { status: EventStatus::Pending, ..t.events[id] },
                )
                &&& forall|k: Id| #[trigger]
                    t.busydays.dom().contains(k) ==> (u.busydays.dom().contains(k) <==> !(
                    t.busydays[k].event_id == Some(id) && t.busydays[k].user_id == me))
            }
            &&& (forall|k: Id| #[trigger]
                u.user_events.dom().contains(k) && u.user_events[k].event_id == id
                    && u.user_events[k].role is Participant ==> u.user_events[k].response_status
                    is Declined) ==> {
                &&& u.events == t.events.insert(
                    id,
                    EventRow { status: EventStatus::Canceled, ..t.events[id] },
                )
                &&& forall|k: Id| #[trigger]
                    t.busydays.dom().contains(k) ==> (u.busydays.dom().contains(k)
                        <==> t.busydays[k].event_id != Some(id))
            }
        }),
{
    decline_event_runs(n, t, auth.user_id, id, first, last);
    what_declining_changes(t, last.session.stored, auth.user_id, id);
}

/// Whatever fails, an answer is stored altogether or not at all, and a reply that it
/// is stored is given only then.
pub proof fn answering_is_all_or_nothing(
    n: nat,
    k: nat,
    t: Tables,
    auth: AuthUser,
    id: Id,
    first: Step<AcceptEvent, EventResponse>,
    last: Running<AcceptEvent>,
    other_first: Step<DeclineEvent, StatusCode>,
    other_last: Running<DeclineEvent>,
)
    requires
        t.keyed(),
        call_ensures(accept_event, (auth, id), first),
        runs(true, n, begun(first, t), last),
        last.step is Done,
        call_ensures(decline_event, (auth, id), other_first),
        runs(true, k, begun(other_first, t), other_last),
        other_last.step is Done,
    ensures
        last.session.stored == t || accepted(t, last.session.stored, auth.user_id, id),
        last.step->Done_0 is Ok ==> accepted(t, last.session.stored, auth.user_id, id),
        other_last.step->Done_0 is Err ==> other_last.session.stored == t,
        other_last.step->Done_0 is Ok ==> declined(
            t,
            other_last.session.stored,
            auth.user_id,
            id,
        ),
{
    accept_event_is_atomic(n, t, auth.user_id, id, first, last);
    decline_event_is_atomic(k, t, auth.user_id, id, other_first, other_last);
}

/// Canceling an event of one's own that is not completed removes it, every part in
/// it and every day taken for it, and nothing else. Otherwise it is refused, and
/// nothing is different. Whatever fails, it is done altogether or not at all.
pub proof fn canceling_removes_the_event_and_what_is_of_it(
    faults: bool,
    n: nat,
    t: Tables,
    auth: AuthUser,
    id: Id,
    first: Step<CancelEvent, StatusCode>,
    last: Running<CancelEvent>,
)
    requires
        t.keyed(),
        call_ensures(cancel_event, (auth, id), first),
        runs(faults, n, begun(first, t), last),
        last.step is Done,
    ensures
        ({
            let u = last.session.stored;
            let own = t.events.dom().contains(id) && t.events[id].creator_id == auth.user_id;
            match last.step {
                Step::Done(Ok(code)) => {
                    &&& code is NoContent
                    &&& u.events == t.events.remove(id)
                    &&& u.users == t.users
                    &&& u.friendships == t.friendships
                    &&& u.wish_places == t.wish_places
                    &&& forall|k: Id| #[trigger]
                        u.user_events.dom().contains(k) <==> t.user_events.dom().contains(k)
                            && t.user_events[k].event_id != id
                    &&& forall|k: Id| #[trigger]
                        u.user_events.dom().contains(k) ==> u.user_events[k] == t.user_events[k]
                    &&& forall|k: Id| #[trigger]
                        u.busydays.dom().contains(k) <==> t.busydays.dom().contains(k)
                            && t.busydays[k].event_id != Some(id)
                    &&& forall|k: Id| #[trigger]
                        u.busydays.dom().contains(k) ==> u.busydays[k] == t.busydays[k]
                    &&& !faults ==> own && !(t.events[id].status is Completed)
                },
                Step::Done(Err(why)) => {
                    &&& u == t
                    &&& !faults ==> if own {
                        t.events[id].status is Completed && why is EventCompleted
                    } else {
                        why is EventMissing
                    }
                },
                _ => false,
            }
        }),
{
    if faults {
        cancel_event_is_atomic(n, t, auth.user_id, id, first, last);
    } else {
        cancel_event_runs(n, t, auth.user_id, id, first, last);
    }
    if last.step->Done_0 is Ok {
        let u = last.session.stored;
        assert(u == without_event(t, id));
        assert forall|k: Id| #[trigger]
            u.user_events.dom().contains(k) <==> t.user_events.dom().contains(k)
                && t.user_events[k].event_id != id by {
            assert(matching(t.user_events, parts_in(id)).contains(k)
                <==> t.user_events.dom().contains(k) && parts_in(id)(t.user_events[k]));
        }
        assert forall|k: Id| #[trigger]
            u.busydays.dom().contains(k) <==> t.busydays.dom().contains(k)
                && t.busydays[k].event_id != Some(id) by {
            assert(matching(t.busydays, taken_for(id)).contains(k)
                <==> t.busydays.dom().contains(k) && taken_for(id)(t.busydays[k]));
        }
    }
}

/// On a given day, an event of one's own that is neither completed nor canceled and
/// whose day has come is completed, with the image that is given, and nothing else is
/// different. It is refused, and nothing is different: if it is not one's own; if it
/// is closed; if its day lies ahead; if the image is white space alone.
pub proof fn completing_stores_the_image(
    n: nat,
    t: Tables,
    auth: AuthUser,
    id: Id,
    body: FinishEventBody,
    today: Date,
    first: Step<FinishEvent, EventResponse>,
    last: Running<FinishEvent>,
)
    requires
        t.keyed(),
        call_ensures(finish_event_on, (auth, id, body, today), first),
        runs(false, n, begun(first, t), last),
        last.step is Done,
    ensures
        ({
            let u = last.session.stored;
            let own = t.events.dom().contains(id) && t.events[id].creator_id == auth.user_id;
            let closed = t.events[id].status is Completed || t.events[id].status is Canceled;
            let ahead = day_lt(today.ymd(), t.events[id].date.ymd());
            let empty = forall|i: int|
                0 <= i < body.memory_image_base64@.len() ==> white_space(
                    #[trigger] body.memory_image_base64@[i],
                );
            match last.step {
                Step::Done(Ok(shown)) => {
                    &&& own && !closed && !ahead && !empty
                    &&& u == (Tables {
                        events: t.events.insert(
                            id,
                            EventRow {
                                status: EventStatus::Completed,
                                memory_image_base64: Some(body.memory_image_base64),
                                ..t.events[id]
                            },
                        ),
                        ..t
                    })
                    &&& shows_stored_event(u, id, shown)
                    &&& shown.status@ == "completed"@
                    &&& shown.memory_image_base64 == Some(body.memory_image_base64)
                },
                Step::Done(Err(why)) => {
                    &&& u == t
                    &&& if !own {
                        why is NotEventCreator
                    } else if closed {
                        why is EventClosed
                    } else if ahead {
                        why is EventInFuture
                    } else {
                        empty && why is MemoryImageMissing
                    }
                },
                _ => false,
            }
        }),
{
    finish_event_runs(
        n,
        t,
        auth.user_id,
        id,
        today,
        body.memory_image_base64,
        first,
        last,
    );
}

/// An event is completed only once the clock has given its day or a later one. Until
/// then completing it is refused, and nothing is different. Whatever fails, the event
/// is completed altogether or not at all.
pub proof fn completing_waits_for_the_day(
    faults: bool,
    n: nat,
    t: Tables,
    auth: AuthUser,
    id: Id,
    body: FinishEventBody,
    first: Step<FinishEvent, EventResponse>,
    last: Running<FinishEvent>,
)
    requires
        t.keyed(),
        call_ensures(finish_event, (auth, id, body), first),
        runs(faults, n, begun(first, t), last),
        last.step is Done,
    ensures
        exists|today: Date|
            #![trigger today.on_the_clock()]
            {
                let u = last.session.stored;
                &&& today.on_the_clock()
                &&& last.step->Done_0 is Ok ==> u.events[id].status is Completed
                    && u.events[id].memory_image_base64 == Some(body.memory_image_base64)
                &&& !faults && t.events.dom().contains(id) && t.events[id].creator_id
                    == auth.user_id && (t.events[id].status is Pending || t.events[id].status
                    is Confirmed) ==> (last.step matches Step::Done(Err(why)) && why
                    is EventInFuture <==> day_lt(today.ymd(), t.events[id].date.ymd()))
                &&& u == t || u == (Tables {
                    events: t.events.insert(
                        id,
                        EventRow {
                            status: EventStatus::Completed,
                            memory_image_base64: Some(body.memory_image_base64),
                            ..t.events[id]
                        },
                    ),
                    ..t
                })
            },
{
    let today = first->Ask_0->Event_today;
    let image = body.memory_image_base64;
    if faults {
        finish_event_is_atomic(n, t, auth.user_id, id, today, image, first, last);
    } else {
        finish_event_runs(n, t, auth.user_id, id, today, image, first, last);
    }
    assert(today.on_the_clock());
}

} // verus!
