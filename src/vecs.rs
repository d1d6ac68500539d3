//! Moving the elements of a vector without copying them.

use vstd::prelude::*;

verus! {

/// The same elements in the opposite order.
pub fn reversed<T>(v: Vec<T>) -> (r: Vec<T>)
    ensures
        r@ == v@.reverse(),
{
    let ghost all = v@;
    let mut rest = v;
    let mut out: Vec<T> = Vec::new();
    while rest.len() > 0
        invariant
            all == v@,
            rest@ + out@.reverse() == all,
        decreases rest@.len(),
    {
        let x = rest.pop().unwrap();
        out.push(x);
        proof {
            assert(rest@ + out@.reverse() =~= all);
        }
    }
    proof {
        assert(out@.reverse() =~= all);
        assert(out@ =~= all.reverse());
    }
    out
}

} // verus!
