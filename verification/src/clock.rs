use vstd::prelude::*;

verus! {

/// `time::precise_time_ns`: the reading of a high-resolution counter, in
/// nanoseconds since an epoch that is not specified. Nothing is claimed of
/// the number.
#[verifier::external_body]
pub(crate) fn precise_time_ns() -> u64 {
    time::precise_time_ns()
}

} // verus!
