use vstd::prelude::*;

verus! {

/// Relies on fastrand::usize: drawn from the thread-local generator over the range
/// `..max`, the result lies below `max`; the range is empty, and the call panics, only
/// when `max` is zero.
#[verifier::external_body]
pub(crate) fn get_random(max: usize) -> (r: usize)
    requires
        max > 0,
    ensures
        r < max,
{
    fastrand::usize(..max)
}

} // verus!
