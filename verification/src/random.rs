//! The random number generator of the drawing backend.

use vstd::prelude::*;

verus! {

/// Calls `macroquad::rand::gen_range` on two 64-bit integers, which draws the
/// next number of the process-wide generator and scales it to lie between
/// `low` and `high`. The result depends on the generator's state, so the
/// contract claims nothing of it: callers test what they get.
#[verifier::external_body]
pub(crate) fn gen_range(low: i64, high: i64) -> (r: i64) {
    macroquad::rand::gen_range(low, high)
}

} // verus!
