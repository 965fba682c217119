//! The octaves of the terrain's height function.
//!
//! The height at a point is a sum of layers of coherent noise. Layer `o`
//! samples the noise at `2^o` times the base frequency and weighs it with the
//! base amplitude divided by `2^o`. The factor `2^o` is computed here; the
//! noise itself and the sum are outside this crate.

use vstd::prelude::*;
use vstd::arithmetic::power2::pow2;
use vstd::arithmetic::power2::lemma_pow2_unfold;
use vstd::arithmetic::power2::lemma2_to64;
use vstd::arithmetic::power2::lemma_pow2_strictly_increases;

verus! {

/// Number of layers in the height function.
pub const OCTAVES: u32 = 6;

/// Largest seed of the noise.
pub const MAX_SEED: u32 = 120;

/// `seed` if it is at most `MAX_SEED`, else `MAX_SEED`.
pub fn limit_seed(seed: u32) -> (limited: u32)
    ensures
        limited == if seed <= MAX_SEED { seed } else { MAX_SEED },
{
    if seed <= MAX_SEED {
        seed
    } else {
        MAX_SEED
    }
}

/// From one octave to the next the factor doubles: the frequency doubles and
/// the amplitude halves.
pub proof fn lemma_octave_doubles(octave: nat)
    ensures
        pow2(octave + 1) == 2 * pow2(octave),
        pow2(0) == 1,
{
    lemma_pow2_unfold(octave + 1);
    lemma2_to64();
}

/// The factor `2^octave` by which octave `octave` multiplies the base
/// frequency and divides the base amplitude.
pub fn octave_scale(octave: u32) -> (scale: u32)
    requires
        octave < 32,
    ensures
        scale == pow2(octave as nat),
{
    let mut scale: u32 = 1;
    let mut done: u32 = 0;
    proof {
        lemma2_to64();
    }
    while done < octave
        invariant
            done <= octave,
            octave < 32,
            scale == pow2(done as nat),
        decreases octave - done,
    {
        proof {
            lemma_pow2_unfold((done + 1) as nat);
            lemma2_to64();
            if done + 1 < 31 {
                lemma_pow2_strictly_increases((done + 1) as nat, 31);
            }
        }
        scale = scale * 2;
        done += 1;
    }
    scale
}

/// The factors of all octaves, lowest octave first: 1, 2, 4, 8, 16, 32.
pub fn octave_scales() -> (scales: Vec<u32>)
    ensures
        scales.len() == OCTAVES,
        forall|o: int| 0 <= o < OCTAVES ==> scales[o] == pow2(o as nat),
{
    let mut scales: Vec<u32> = Vec::new();
    let mut octave: u32 = 0;
    while octave < OCTAVES
        invariant
            octave <= OCTAVES,
            scales.len() == octave,
            forall|o: int| 0 <= o < octave ==> scales[o] == pow2(o as nat),
        decreases OCTAVES - octave,
    {
        scales.push(octave_scale(octave));
        octave += 1;
    }
    scales
}

} // verus!
