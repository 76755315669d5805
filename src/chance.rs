use vstd::prelude::*;

verus! {

/// Relies on `rand::thread_rng` and `Rng::gen_range` from rand: a draw from
/// the half-open range `lo..hi`, which must not be empty (`gen_range` panics
/// on an empty range).
#[verifier::external_body]
pub(crate) fn random_between(lo: i64, hi: i64) -> (r: i64)
    requires
        lo < hi,
    ensures
        lo <= r < hi,
{
    rand::Rng::gen_range(&mut rand::thread_rng(), lo..hi)
}

} // verus!
