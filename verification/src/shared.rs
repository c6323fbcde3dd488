use vstd::prelude::*;
use std::sync::Arc;

verus! {

/// Calls `Arc::clone`: another handle to the same allocation, so the value
/// seen through it is the value seen through `shared`.
#[verifier::external_body]
pub(crate) fn share<V>(shared: &Arc<V>) -> (r: Arc<V>)
    ensures
        r == *shared,
{
    Arc::clone(shared)
}

} // verus!
