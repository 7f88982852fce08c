//! Small operations on vectors.

use vstd::prelude::*;

verus! {

/// The elements of `v` in the reverse order.
pub fn reversed<T>(v: Vec<T>) -> (r: Vec<T>)
    ensures
        r@ == v@.reverse(),
{
    let mut rest = v;
    let mut out: Vec<T> = Vec::new();
    proof {
        assert(v@.take(v@.len() as int) =~= v@);
    }
    while rest.len() > 0
        invariant
            rest@.len() + out@.len() == v@.len(),
            rest@ == v@.take(rest@.len() as int),
            forall|k: int| 0 <= k < out@.len() ==> out@[k] == v@[v@.len() - 1 - k],
        decreases rest.len(),
    {
        let ghost n = rest@.len();
        match rest.pop() {
            Some(x) => {
                out.push(x);
                proof {
                    assert(rest@ =~= v@.take(n - 1));
                }
            },
            None => {},
        }
    }
    assert(out@ =~= v@.reverse());
    out
}

} // verus!
