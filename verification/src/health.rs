//! The startup health check decision: whether the rendering server answered
//! any of the bounded probe navigations. If none succeeded the run must not
//! start — the caller aborts with a remediation hint.

use vstd::prelude::*;

verus! {

/// `probes[i]` says whether probe `i` both navigated and finished loading.
/// The server is reachable exactly when some probe succeeded.
pub fn server_reachable(probes: &Vec<bool>) -> (r: bool)
    ensures
        r <==> exists|i: int| 0 <= i < probes@.len() && probes@[i],
{
    let mut k: usize = 0;
    while k < probes.len()
        invariant
            k <= probes@.len(),
            forall|i: int| 0 <= i < k ==> !probes@[i],
        decreases probes@.len() - k,
    {
        if probes[k] {
            return true;
        }
        k = k + 1;
    }
    false
}

} // verus!
