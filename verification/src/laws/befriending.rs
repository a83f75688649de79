//! How friendships begin and end.

use crate::controllers::friends::accepted_between;
use crate::controllers::friendship_controller::{
    offered, shows_users, AcceptFriendRequest, Circle, FriendRequest, ListPeople,
    RejectFriendRequest, RemoveFriend,
};
use crate::controllers::models::UserDTO;
use crate::entities::{FriendshipRow, FriendshipStatus, Id, UserRow};
use crate::laws::facts::{are_friends, without_alike};
use crate::laws::reading::{lists_alike, reading_changes_nothing};
use crate::machine::{Machine, Step};
use crate::model::{
    begun, exchange, finds, gains, lists, matching, runs, runs_keep, through, without, Running,
    Session, Tables,
};
use crate::refusal::{Refusal, StatusCode};
use crate::store::{Cond, FriendshipTest, Reply};
use vstd::prelude::*;

verus! {

/// Friendship knows no direction.
pub proof fn friendship_is_mutual(t: Tables, a: Id, b: Id)
    ensures
        are_friends(t, a, b) == are_friends(t, b, a),
{
    if are_friends(t, a, b) {
        let k = choose|k: Id| #[trigger]
            t.friendships.dom().contains(k) && accepted_between(a, b)(t.friendships[k]);
        assert(accepted_between(b, a)(t.friendships[k]));
    }
    if are_friends(t, b, a) {
        let k = choose|k: Id| #[trigger]
            t.friendships.dom().contains(k) && accepted_between(b, a)(t.friendships[k]);
        assert(accepted_between(a, b)(t.friendships[k]));
    }
}

/// `sender` has offered friendship to `me`, who has not answered.
pub open spec fn has_offered(t: Tables, sender: Id, me: Id) -> bool {
    exists|k: Id| #[trigger]
        t.friendships.dom().contains(k) && offered(sender, me)(t.friendships[k])
}

/// The tables once `me` has offered friendship to another user. Nothing else is
/// different.
pub open spec fn with_offer(t: Tables, u: Tables, me: Id, friend_id: Id) -> bool {
    exists|row: FriendshipRow|
        {
            &&& offered(me, friend_id)(row)
            &&& #[trigger] gains(t.friendships, row, u.friendships)
            &&& u == (Tables { friendships: u.friendships, ..t })
        }
}

/// Offering friendship, whatever fails: if that is what is answered, the other
/// user has the offer; else nothing is different. Without a failure it is
/// answered, unless the offer is to oneself.
pub proof fn friend_request_runs(
    faults: bool,
    n: nat,
    t: Tables,
    me: Id,
    friend_id: Id,
    first: Step<FriendRequest, StatusCode>,
    last: Running<FriendRequest>,
)
    requires
        if friend_id == me {
            first.refused(Refusal::BefriendSelf)
        } else {
            first.waits_at(FriendRequest::Insert { me, friend_id })
        },
        first matches Step::Ask(m, request) ==> m.asking(request),
        runs(faults, n, begun(first, t), last),
    ensures
        last.step matches Step::Done(Ok(code)) ==> {
            &&& code is Created
            &&& friend_id != me
            &&& with_offer(t, last.session.stored, me, friend_id)
            &&& has_offered(last.session.stored, me, friend_id)
        },
        last.step matches Step::Done(Err(why)) ==> {
            &&& last.session.stored == t
            &&& !faults ==> friend_id == me && why is BefriendSelf
        },
{
    let kept = |r: Running<FriendRequest>|
        match r.step {
            Step::Ask(m, request) => {
                &&& m.asking(request)
                &&& m == (FriendRequest::Insert { me, friend_id })
                &&& friend_id != me
                &&& r.session == Session::to(t)
            },
            Step::Done(Ok(code)) => code is Created && friend_id != me && with_offer(
                t,
                r.session.stored,
                me,
                friend_id,
            ),
            Step::Done(Err(why)) => {
                &&& r.session.stored == t
                &&& !faults ==> friend_id == me && why is BefriendSelf
            },
        };
    assert forall|c: Running<FriendRequest>, reply: Reply, d: Running<FriendRequest>|
        kept(c) && #[trigger] exchange(faults, c, reply, d) implies kept(d) by {
        if reply is Done {
            let new = c.step->Ask_1->InsertFriendship_0;
            let u = d.session.stored;
            let row = choose|row: FriendshipRow|
                #![trigger new.stored_as(row)]
                new.stored_as(row) && gains(t.friendships, row, u.friendships);
            assert(gains(t.friendships, row, u.friendships));
        }
    }
    runs_keep(faults, n, begun(first, t), last, kept);
    if last.step is Done && last.step->Done_0 is Ok {
        let u = last.session.stored;
        let row = choose|row: FriendshipRow|
            offered(me, friend_id)(row) && #[trigger] gains(t.friendships, row, u.friendships);
        assert(u.friendships.dom().contains(row.id));
    }
}

/// The tables once an offer is accepted. Nothing else is different.
pub open spec fn with_friendship(t: Tables, offer: Id) -> Tables {
    Tables {
        friendships: t.friendships.insert(
            offer,
            FriendshipRow { status: FriendshipStatus::Accepted, ..t.friendships[offer] },
        ),
        ..t
    }
}

/// An offer of friendship is among the tables.
pub open spec fn is_offer(t: Tables, offer: Id, sender: Id, me: Id) -> bool {
    t.friendships.dom().contains(offer) && offered(sender, me)(t.friendships[offer])
}

/// Accepting an offer of friendship, whatever fails: if that is what is answered,
/// the two are friends, and nothing else is different; else nothing is. Without
/// a failure it is answered if there is an offer.
pub proof fn accept_friend_request_runs(
    faults: bool,
    n: nat,
    t: Tables,
    me: Id,
    sender: Id,
    first: Step<AcceptFriendRequest, StatusCode>,
    last: Running<AcceptFriendRequest>,
)
    requires
        t.keyed(),
        if sender == me {
            first.refused(Refusal::AcceptSelf)
        } else {
            first.waits_at(AcceptFriendRequest::Offer { me, sender })
        },
        first matches Step::Ask(m, request) ==> m.asking(request),
        runs(faults, n, begun(first, t), last),
    ensures
        last.step matches Step::Done(Ok(code)) ==> {
            &&& code is NoContent
            &&& sender != me
            &&& exists|offer: Id| #[trigger]
                is_offer(t, offer, sender, me) && last.session.stored == with_friendship(t, offer)
            &&& are_friends(last.session.stored, me, sender)
            &&& are_friends(last.session.stored, sender, me)
        },
        last.step matches Step::Done(Err(why)) ==> {
            &&& last.session.stored == t
            &&& !faults ==> if sender == me {
                why is AcceptSelf
            } else {
                why is FriendRequestMissing && !has_offered(t, sender, me)
            }
        },
{
    let kept = |r: Running<AcceptFriendRequest>|
        match r.step {
            Step::Ask(m, request) => {
                &&& m.asking(request)
                &&& sender != me
                &&& r.session == Session::to(t)
                &&& match m {
                    AcceptFriendRequest::Offer { me: a, sender: b } => a == me && b == sender,
                    AcceptFriendRequest::Update { row } => is_offer(t, row, sender, me),
                }
            },
            Step::Done(Ok(code)) => {
                &&& code is NoContent && sender != me
                &&& exists|offer: Id| #[trigger]
                    is_offer(t, offer, sender, me) && r.session.stored == with_friendship(t, offer)
            },
            Step::Done(Err(why)) => {
                &&& r.session.stored == t
                &&& !faults ==> if sender == me {
                    why is AcceptSelf
                } else {
                    why is FriendRequestMissing && !has_offered(t, sender, me)
                }
            },
        };
    assert forall|
        c: Running<AcceptFriendRequest>,
        reply: Reply,
        d: Running<AcceptFriendRequest>,
    |
        kept(c) && #[trigger] exchange(faults, c, reply, d) implies kept(d) by {
        if c.step->Ask_0 is Offer && reply is Friendship {
            offer_found(t, c.step->Ask_1->OneFriendship_0, reply->Friendship_0, sender, me);
        }
    }
    runs_keep(faults, n, begun(first, t), last, kept);
    if last.step is Done && last.step->Done_0 is Ok {
        let u = last.session.stored;
        let offer = choose|offer: Id| #[trigger]
            is_offer(t, offer, sender, me) && u == with_friendship(t, offer);
        assert(u.friendships.dom().contains(offer));
        assert(accepted_between(me, sender)(u.friendships[offer]));
        friendship_is_mutual(u, me, sender);
    }
}

/// An offer is found if there is one.
proof fn offer_found(
    t: Tables,
    c: Cond<FriendshipTest>,
    found: Option<FriendshipRow>,
    sender: Id,
    me: Id,
)
    requires
        t.keyed(),
        c.means(offered(sender, me)),
        finds(t.friendships, through(c), found),
    ensures
        found is Some <==> has_offered(t, sender, me),
        found matches Some(row) ==> is_offer(t, row.id, sender, me),
{
    match found {
        Some(row) => {
            assert(c.admits(row));
        },
        None => {
            assert forall|k: Id| #[trigger] t.friendships.dom().contains(k) implies !offered(
                sender,
                me,
            )(t.friendships[k]) by {
                assert(!c.admits(t.friendships[k]));
            }
        },
    }
}

/// Rejecting an offer of friendship, whatever fails: if that is what is answered,
/// the offer is gone, and nothing else is different; else nothing is. Without a
/// failure it is answered if there is an offer.
pub proof fn reject_friend_request_runs(
    faults: bool,
    n: nat,
    t: Tables,
    me: Id,
    sender: Id,
    first: Step<RejectFriendRequest, StatusCode>,
    last: Running<RejectFriendRequest>,
)
    requires
        t.keyed(),
        if sender == me {
            first.refused(Refusal::RejectSelf)
        } else {
            first.waits_at(RejectFriendRequest::Offer { me, sender })
        },
        first matches Step::Ask(m, request) ==> m.asking(request),
        runs(faults, n, begun(first, t), last),
    ensures
        last.step matches Step::Done(Ok(code)) ==> {
            &&& code is NoContent
            &&& sender != me
            &&& exists|offer: Id| #[trigger]
                is_offer(t, offer, sender, me) && last.session.stored == (Tables {
                    friendships: t.friendships.remove(offer),
                    ..t
                })
        },
        last.step matches Step::Done(Err(why)) ==> {
            &&& last.session.stored == t
            &&& !faults ==> if sender == me {
                why is RejectSelf
            } else {
                why is FriendRequestMissing && !has_offered(t, sender, me)
            }
        },
{
    let kept = |r: Running<RejectFriendRequest>|
        match r.step {
            Step::Ask(m, request) => {
                &&& m.asking(request)
                &&& sender != me
                &&& r.session == Session::to(t)
                &&& match m {
                    RejectFriendRequest::Offer { me: a, sender: b } => a == me && b == sender,
                    RejectFriendRequest::Delete { row } => is_offer(t, row, sender, me),
                }
            },
            Step::Done(Ok(code)) => {
                &&& code is NoContent && sender != me
                &&& exists|offer: Id| #[trigger]
                    is_offer(t, offer, sender, me) && r.session.stored == (Tables {
                        friendships: t.friendships.remove(offer),
                        ..t
                    })
            },
            Step::Done(Err(why)) => {
                &&& r.session.stored == t
                &&& !faults ==> if sender == me {
                    why is RejectSelf
                } else {
                    why is FriendRequestMissing && !has_offered(t, sender, me)
                }
            },
        };
    assert forall|
        c: Running<RejectFriendRequest>,
        reply: Reply,
        d: Running<RejectFriendRequest>,
    |
        kept(c) && #[trigger] exchange(faults, c, reply, d) implies kept(d) by {
        if c.step->Ask_0 is Offer && reply is Friendship {
            offer_found(t, c.step->Ask_1->OneFriendship_0, reply->Friendship_0, sender, me);
        }
    }
    runs_keep(faults, n, begun(first, t), last, kept);
}

/// The tables without the friendship of two users. Nothing else is different.
pub open spec fn without_friendship(t: Tables, a: Id, b: Id) -> Tables {
    Tables { friendships: without(t.friendships, accepted_between(a, b)), ..t }
}

/// Ending a friendship, whatever fails: if that is what is answered, the two were
/// friends and are so no longer, whichever of them is asked, and nothing else is
/// different; else nothing is. Without a failure it is answered if they were
/// friends.
pub proof fn remove_friend_runs(
    faults: bool,
    n: nat,
    t: Tables,
    me: Id,
    friend_id: Id,
    first: Step<RemoveFriend, StatusCode>,
    last: Running<RemoveFriend>,
)
    requires
        t.keyed(),
        if friend_id == me {
            first.refused(Refusal::RemoveSelf)
        } else {
            first.waits_at(RemoveFriend::Delete { me, friend_id })
        },
        first matches Step::Ask(m, request) ==> m.asking(request),
        runs(faults, n, begun(first, t), last),
    ensures
        last.step matches Step::Done(Ok(code)) ==> {
            &&& code is NoContent
            &&& friend_id != me
            &&& are_friends(t, me, friend_id)
            &&& last.session.stored == without_friendship(t, me, friend_id)
            &&& !are_friends(last.session.stored, me, friend_id)
            &&& !are_friends(last.session.stored, friend_id, me)
        },
        last.step matches Step::Done(Err(why)) ==> {
            &&& last.session.stored == t
            &&& !faults ==> if friend_id == me {
                why is RemoveSelf
            } else {
                why is FriendshipMissing && !are_friends(t, me, friend_id)
            }
        },
{
    let kept = |r: Running<RemoveFriend>|
        match r.step {
            Step::Ask(m, request) => {
                &&& m.asking(request)
                &&& m == (RemoveFriend::Delete { me, friend_id })
                &&& friend_id != me
                &&& r.session == Session::to(t)
            },
            Step::Done(Ok(code)) => {
                &&& code is NoContent && friend_id != me
                &&& are_friends(t, me, friend_id)
                &&& r.session.stored == without_friendship(t, me, friend_id)
            },
            Step::Done(Err(why)) => {
                &&& r.session.stored == t
                &&& !faults ==> if friend_id == me {
                    why is RemoveSelf
                } else {
                    why is FriendshipMissing && !are_friends(t, me, friend_id)
                }
            },
        };
    let ended = matching(t.friendships, accepted_between(me, friend_id));
    assert forall|c: Running<RemoveFriend>, reply: Reply, d: Running<RemoveFriend>|
        kept(c) && #[trigger] exchange(faults, c, reply, d) implies kept(d) by {
        if reply is Count {
            without_alike(
                t.friendships,
                through(c.step->Ask_1->DeleteFriendships_0),
                accepted_between(me, friend_id),
            );
            assert(ended.subset_of(t.friendships.dom()));
            vstd::set_lib::lemma_set_subset_finite(t.friendships.dom(), ended);
            if are_friends(t, me, friend_id) {
                let k = choose|k: Id| #[trigger]
                    t.friendships.dom().contains(k) && accepted_between(me, friend_id)(
                        t.friendships[k],
                    );
                assert(ended.contains(k));
            } else {
                assert(ended =~= Set::<Id>::empty());
                assert(without(t.friendships, accepted_between(me, friend_id)) =~= t.friendships);
            }
        }
    }
    runs_keep(faults, n, begun(first, t), last, kept);
    if last.step is Done && last.step->Done_0 is Ok {
        let u = last.session.stored;
        assert forall|k: Id| #[trigger] u.friendships.dom().contains(k) implies !accepted_between(
            me,
            friend_id,
        )(u.friendships[k]) by {
            assert(!ended.contains(k));
        }
        friendship_is_mutual(u, me, friend_id);
    }
}

/// `id` is in a circle of `me`.
pub open spec fn in_circle(t: Tables, circle: Circle, me: Id, id: Id) -> bool {
    exists|k: Id| #[trigger]
        t.friendships.dom().contains(k) && circle.friendships(me)(t.friendships[k])
            && circle.other(t.friendships[k], me) == id
}

/// The circle of friends holds the friends, and the others those with an offer.
pub proof fn what_a_circle_holds(t: Tables, me: Id, id: Id)
    ensures
        in_circle(t, Circle::Friends, me, id) == are_friends(t, me, id),
        in_circle(t, Circle::Incoming, me, id) == has_offered(t, id, me),
        in_circle(t, Circle::Outgoing, me, id) == has_offered(t, me, id),
{
    if are_friends(t, me, id) {
        let k = choose|k: Id| #[trigger]
            t.friendships.dom().contains(k) && accepted_between(me, id)(t.friendships[k]);
        assert(Circle::Friends.other(t.friendships[k], me) == id);
    }
    if in_circle(t, Circle::Friends, me, id) {
        let k = choose|k: Id| #[trigger]
            t.friendships.dom().contains(k) && Circle::Friends.friendships(me)(t.friendships[k])
                && Circle::Friends.other(t.friendships[k], me) == id;
        assert(accepted_between(me, id)(t.friendships[k]));
    }
    if has_offered(t, id, me) {
        let k = choose|k: Id| #[trigger]
            t.friendships.dom().contains(k) && offered(id, me)(t.friendships[k]);
        assert(Circle::Incoming.other(t.friendships[k], me) == id);
    }
    if has_offered(t, me, id) {
        let k = choose|k: Id| #[trigger]
            t.friendships.dom().contains(k) && offered(me, id)(t.friendships[k]);
        assert(Circle::Outgoing.other(t.friendships[k], me) == id);
    }
    if in_circle(t, Circle::Incoming, me, id) {
        let k = choose|k: Id| #[trigger]
            t.friendships.dom().contains(k) && Circle::Incoming.friendships(me)(t.friendships[k])
                && Circle::Incoming.other(t.friendships[k], me) == id;
        assert(offered(id, me)(t.friendships[k]));
    }
    if in_circle(t, Circle::Outgoing, me, id) {
        let k = choose|k: Id| #[trigger]
            t.friendships.dom().contains(k) && Circle::Outgoing.friendships(me)(t.friendships[k])
                && Circle::Outgoing.other(t.friendships[k], me) == id;
        assert(offered(me, id)(t.friendships[k]));
    }
}

/// `shown` shows the users that pass, each once.
pub open spec fn shows_all_users(
    t: Tables,
    passes: spec_fn(UserRow) -> bool,
    shown: Seq<UserDTO>,
) -> bool {
    exists|users: Seq<UserRow>|
        lists(t.users, passes, users) && #[trigger] shows_users(users, shown)
}

/// The friendships that are listed name the people in the circle.
pub proof fn friendships_name_people(
    t: Tables,
    circle: Circle,
    me: Id,
    rows: Seq<FriendshipRow>,
    id: Id,
)
    requires
        t.keyed(),
        lists(t.friendships, circle.friendships(me), rows),
    ensures
        circle.others(rows, me).contains(id) <==> in_circle(t, circle, me, id),
{
    let ids = circle.others(rows, me);
    if ids.contains(id) {
        let i = choose|i: int| 0 <= i < ids.len() && ids[i] == id;
        assert(circle.other(rows[i], me) == id);
        assert(t.friendships.dom().contains(rows[i].id));
    }
    if in_circle(t, circle, me, id) {
        let k = choose|k: Id| #[trigger]
            t.friendships.dom().contains(k) && circle.friendships(me)(t.friendships[k])
                && circle.other(t.friendships[k], me) == id;
        let i = choose|i: int| 0 <= i < rows.len() && (#[trigger] rows[i]) == t.friendships[k];
        assert(ids[i] == id);
    }
}

/// A list of people shows the users in the circle that is asked for, and no
/// others, and leaves the tables as they are.
pub proof fn people_are_listed(
    n: nat,
    t: Tables,
    me: Id,
    circle: Circle,
    first: Step<ListPeople, Vec<UserDTO>>,
    last: Running<ListPeople>,
)
    requires
        t.keyed(),
        first.waits_at(ListPeople::Friendships { me, circle }),
        first matches Step::Ask(m, request) && m.asking(request),
        runs(false, n, begun(first, t), last),
    ensures
        last.step matches Step::Done(r) ==> r matches Ok(shown) && shows_all_users(
            t,
            |user: UserRow| in_circle(t, circle, me, user.id),
            shown@,
        ),
        last.session.stored == t,
{
    let wanted = |user: UserRow| in_circle(t, circle, me, user.id);
    let kept = |r: Running<ListPeople>|
        {
            &&& r.session == Session::to(t)
            &&& match r.step {
                Step::Ask(m, request) => {
                    &&& m.asking(request)
                    &&& match m {
                        ListPeople::Friendships { me: a, circle: c } => a == me && c == circle,
                        ListPeople::Users { among } => forall|id: Id| #[trigger]
                            among@.contains(id) <==> in_circle(t, circle, me, id),
                    }
                },
                Step::Done(Ok(shown)) => shows_all_users(t, wanted, shown@),
                Step::Done(Err(_)) => false,
            }
        };
    assert forall|c: Running<ListPeople>, reply: Reply, d: Running<ListPeople>|
        kept(c) && #[trigger] exchange(false, c, reply, d) implies kept(d) by {
        let request = c.step->Ask_1;
        reading_changes_nothing(c.session, request, reply, d.session);
        match c.step->Ask_0 {
            ListPeople::Friendships { .. } => {
                let rows = reply->Friendships_0@;
                lists_alike(
                    t.friendships,
                    through(request->AllFriendships_0),
                    circle.friendships(me),
                    rows,
                );
                assert forall|id: Id| #[trigger]
                    circle.others(rows, me).contains(id) <==> in_circle(t, circle, me, id) by {
                    friendships_name_people(t, circle, me, rows, id);
                }
                if rows.len() == 0 {
                    let none = Seq::<UserRow>::empty();
                    assert(lists(t.users, wanted, none)) by {
                        assert forall|k: Id| #[trigger] t.users.dom().contains(k) implies !wanted(
                            t.users[k],
                        ) by {
                            assert(!circle.others(rows, me).contains(t.users[k].id));
                        }
                    }
                    assert(shows_users(none, d.step->Done_0->Ok_0@));
                }
            },
            ListPeople::Users { among } => {
                let cond = request->AllUsers_0;
                let users = reply->Users_0@;
                assert forall|user: UserRow| #[trigger] through(cond)(user) == wanted(user) by {
                    assert(cond.admits(user) == among@.contains(user.id));
                }
                lists_alike(t.users, through(cond), wanted, users);
                assert(shows_users(users, d.step->Done_0->Ok_0@));
            },
        }
    }
    runs_keep(false, n, begun(first, t), last, kept);
}

} // verus!
