//! Parameter accounting of the alternating-operator ansatz: the other
//! workload shape jobs of this library carry.

use vstd::prelude::*;

verus! {

/// The number of parameters an alternating-operator circuit of `p` layers
/// takes: one cost angle and one mixer angle per layer.
pub fn num_parameters(p: usize) -> (n: usize)
    requires
        2 * p <= usize::MAX,
    ensures
        n == 2 * p,
{
    2 * p
}

} // verus!
