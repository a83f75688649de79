//! Requests as machines that talk to the database.

use crate::refusal::Refusal;
use crate::store::{Reply, Request};
use vstd::prelude::*;

verus! {

/// Where a request stands: it waits for the database at a state, or it is done.
#[derive(Debug)]
pub enum Step<M, T> {
    Ask(M, Request),
    Done(Result<T, Refusal>),
}

/// How far a request is from its end: five numbers, of which the first that
/// differs decides.
pub open spec fn nearer(
    a: (nat, nat, nat, nat, nat),
    b: (nat, nat, nat, nat, nat),
) -> bool {
    ||| a.0 < b.0
    ||| a.0 == b.0 && a.1 < b.1
    ||| a.0 == b.0 && a.1 == b.1 && a.2 < b.2
    ||| a.0 == b.0 && a.1 == b.1 && a.2 == b.2 && a.3 < b.3
    ||| a.0 == b.0 && a.1 == b.1 && a.2 == b.2 && a.3 == b.3 && a.4 < b.4
}

/// The distance `n`, and after it that of a part of the request.
pub open spec fn then_left(
    n: nat,
    part: (nat, nat, nat, nat, nat),
) -> (nat, nat, nat, nat, nat) {
    (n, part.0, part.1, part.2, part.3)
}

/// The distance of a request with `n` states before it.
pub open spec fn steps_left(n: nat) -> (nat, nat, nat, nat, nat) {
    (n, 0, 0, 0, 0)
}

/// How many of `all` are left from `at` on.
pub open spec fn rest(all: nat, at: usize) -> nat {
    if at < all {
        (all - at) as nat
    } else {
        0
    }
}

/// A request that has been begun. Its states are the values of `Self`.
pub trait Machine: Sized {
    /// What a request that is not refused replies.
    type Out;

    /// What is asked of the database at this state.
    spec fn asking(self, request: Request) -> bool;

    /// Where an answer leads from this state.
    spec fn next(self, reply: Reply, step: Step<Self, Self::Out>) -> bool;

    /// How far this state is from the end, at most.
    spec fn left(self) -> (nat, nat, nat, nat, nat);

    /// Every answer brings the request nearer to its end.
    proof fn nears_end(self, reply: Reply, step: Step<Self, Self::Out>)
        requires
            self.next(reply, step),
        ensures
            step matches Step::Ask(m, _) ==> nearer(m.left(), self.left()),
    ;

    /// Goes on with the database's answer.
    fn resume(self, reply: Reply) -> (step: Step<Self, Self::Out>)
        ensures
            self.next(reply, step),
            step matches Step::Ask(m, request) ==> m.asking(request),
    ;
}

impl<M, T> Step<M, T> {
    /// The request waits at the state `m`.
    pub open spec fn waits_at(self, m: M) -> bool {
        self matches Step::Ask(n, _) && n == m
    }

    /// The request is refused for the reason `why`.
    pub open spec fn refused(self, why: Refusal) -> bool {
        self matches Step::Done(Err(e)) && e == why
    }
}

} // verus!
