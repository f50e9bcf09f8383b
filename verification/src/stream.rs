//! The seeded random stream that every draw of a run comes from.
//!
//! The generator itself is `rand`'s `StdRng`. Its state is opaque here. The
//! contracts know it as a number, and know each draw as a function of the
//! state and of what is asked: that is what makes a run repeatable.

use crate::geometry::Material;
use rand::rngs::StdRng;
use rand::seq::SliceRandom;
use rand::{Rng, SeedableRng};
use vstd::prelude::*;

verus! {

#[verifier::external_type_specification]
#[verifier::external_body]
pub struct ExStdRng(rand::rngs::StdRng);

/// The internal state of a stream, as a number.
pub uninterp spec fn stream_state(rng: StdRng) -> nat;

/// The state of a stream freshly made from `seed`.
pub uninterp spec fn seed_state(seed: u64) -> nat;

/// What a stream in `state` gives when asked for an integer of the half-open
/// range `low..high`: the integer, and the state the stream is left in.
pub uninterp spec fn range_draw(state: nat, low: int, high: int) -> (int, nat);

/// What a stream in `state` gives when asked to pick one of `len` items: the
/// index of the item, and the state the stream is left in.
pub uninterp spec fn pick_draw(state: nat, len: nat) -> (int, nat);

/// Trusted: `StdRng::seed_from_u64`. The state of the new stream is fixed by
/// the seed.
#[verifier::external_body]
pub(crate) fn seeded(seed: u64) -> (rng: StdRng)
    ensures
        stream_state(rng) == seed_state(seed),
{
    StdRng::seed_from_u64(seed)
}

/// Trusted: `Rng::gen_range` on `low..high` for `i32`. The outcome lies in
/// the range; outcome and new state are fixed by the old state and the
/// range. An empty range, on which `gen_range` panics, is excluded.
#[verifier::external_body]
pub(crate) fn draw_range(rng: &mut StdRng, low: i32, high: i32) -> (n: i32)
    requires
        low < high,
    ensures
        low <= n < high,
        (n as int, stream_state(*final(rng))) == range_draw(
            stream_state(*old(rng)),
            low as int,
            high as int,
        ),
{
    rng.gen_range(low..high)
}

/// Trusted: `SliceRandom::choose` on a non-empty slice. The outcome is the
/// item at an index inside the slice; index and new state are fixed by the
/// old state and the slice's length.
#[verifier::external_body]
pub(crate) fn pick_material(rng: &mut StdRng, palette: &[Material]) -> (m: Material)
    requires
        palette@.len() > 0,
    ensures
        0 <= pick_draw(stream_state(*old(rng)), palette@.len()).0 < palette@.len(),
        m == palette@[pick_draw(stream_state(*old(rng)), palette@.len()).0],
        stream_state(*final(rng)) == pick_draw(stream_state(*old(rng)), palette@.len()).1,
{
    *palette.choose(rng).unwrap()
}

} // verus!
