//! The engine's randomness source.
//!
//! Every function that needs entropy takes `&mut rand::rngs::StdRng`, an
//! explicitly threaded deterministic stream. The two wrappers below are the
//! only places the engine draws from it; each states only what holds of
//! every sample.

use vstd::prelude::*;

verus! {

#[verifier::external_type_specification]
#[verifier::external_body]
pub struct ExStdRng(rand::rngs::StdRng);

/// Relies on rand's `Rng::gen_range` over the half-open range `lo..hi`:
/// the sample always lies in `[lo, hi)`; the call panics on an empty range,
/// which the precondition rules out.
#[verifier::external_body]
pub(crate) fn gen_range_u64(rng: &mut rand::rngs::StdRng, lo: u64, hi: u64) -> (r: u64)
    requires
        lo < hi,
    ensures
        lo <= r < hi,
{
    rand::Rng::gen_range(rng, lo..hi)
}

/// Relies on rand's `Rng::gen_range` over the half-open range `lo..hi`:
/// the sample always lies in `[lo, hi)`; the call panics on an empty range,
/// which the precondition rules out.
#[verifier::external_body]
pub(crate) fn gen_range_i64(rng: &mut rand::rngs::StdRng, lo: i64, hi: i64) -> (r: i64)
    requires
        lo < hi,
    ensures
        lo <= r < hi,
{
    rand::Rng::gen_range(rng, lo..hi)
}

} // verus!
