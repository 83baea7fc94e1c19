//! Trusted wrappers around the `rand` crate. A drawn value depends on the
//! process-wide generator, so each contract states only what holds of every
//! outcome; everything decided from the value is verified elsewhere.

use vstd::prelude::*;
use rand::Rng;
use rand::seq::SliceRandom;
use crate::geometry::Position;

verus! {

/// Relies on rand's `Rng::gen_range` on an inclusive `i32` range: the draw
/// always lies between the bounds. The call panics on an empty range, which
/// `lo <= hi` rules out.
#[verifier::external_body]
pub(crate) fn gen_range_inclusive(lo: i32, hi: i32) -> (r: i32)
    requires
        lo <= hi,
    ensures
        lo <= r <= hi,
{
    rand::thread_rng().gen_range(lo..=hi)
}

/// Relies on rand's `SliceRandom::choose` for slices: it returns `None`
/// exactly when the slice is empty, and otherwise one of its elements.
#[verifier::external_body]
pub(crate) fn choose_position(v: &Vec<Position>) -> (r: Option<Position>)
    ensures
        match r {
            Some(p) => v@.contains(p),
            None => v@.len() == 0,
        },
{
    v.as_slice().choose(&mut rand::thread_rng()).copied()
}

} // verus!
