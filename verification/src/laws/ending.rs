//! Every request ends.

use crate::machine::Machine;
use crate::model::{exchange, Running};
use crate::store::Reply;
use vstd::prelude::*;

verus! {

/// At the place `i` of a run the request is done, or the next place follows by
/// one exchange.
pub open spec fn follows<M: Machine>(
    faults: bool,
    run: spec_fn(nat) -> Running<M>,
    i: nat,
) -> bool {
    run(i).step is Ask ==> exists|reply: Reply| #[trigger]
        exchange(faults, run(i), reply, run((i + 1) as nat))
}

proof fn ends_after<M: Machine>(faults: bool, run: spec_fn(nat) -> Running<M>, i: nat) -> (n: nat)
    requires
        forall|i: nat| #[trigger] follows(faults, run, i),
    ensures
        run(n).step is Done,
    decreases
        run(i).step->Ask_0.left().0,
        run(i).step->Ask_0.left().1,
        run(i).step->Ask_0.left().2,
        run(i).step->Ask_0.left().3,
        run(i).step->Ask_0.left().4,
{
    let next = (i + 1) as nat;
    if run(i).step is Done {
        i
    } else if run(next).step is Done {
        next
    } else {
        assert(follows(faults, run, i));
        let reply = choose|reply: Reply| #[trigger] exchange(faults, run(i), reply, run(next));
        run(i).step->Ask_0.nears_end(reply, run(next).step);
        ends_after(faults, run, next)
    }
}

/// A request that is answered whenever it asks comes to its end, whatever the
/// answers are.
pub proof fn every_request_ends<M: Machine>(faults: bool, run: spec_fn(nat) -> Running<M>)
    requires
        forall|i: nat| #[trigger] follows(faults, run, i),
    ensures
        exists|n: nat| (#[trigger] run(n)).step is Done,
{
    let n = ends_after(faults, run, 0);
}

} // verus!
