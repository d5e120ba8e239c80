//! Random words that depend on their arguments alone: the source of every random number.

use crate::fixed::Fixed;
use crate::geometry::Point2i;
use vstd::prelude::*;

verus! {

/// The bits of `x` stirred so that every bit of the result depends on every bit of `x`.
pub open spec fn mix_bits(x: u64) -> u64 {
    let a = x.wrapping_add(0x9e37_79b9_7f4a_7c15);
    let b = (a ^ (a >> 30)).wrapping_mul(0xbf58_476d_1ce4_e5b9);
    let c = (b ^ (b >> 27)).wrapping_mul(0x94d0_49bb_1331_11eb);
    c ^ (c >> 31)
}

/// The two coordinates of a pixel in one word.
pub open spec fn pixel_bits(pixel: Point2i) -> u64 {
    ((pixel.x as u32 as u64) << 32) | (pixel.y as u32 as u64)
}

/// The word from which a sample is made: it depends on the seed, the pixel, the index of
/// the sample and the dimension, and on nothing else.
pub open spec fn sample_key(seed: u64, pixel: Point2i, index: u64, dim: u32) -> u64 {
    mix_bits(mix_bits(mix_bits(seed ^ pixel_bits(pixel)) ^ index) ^ (dim as u64))
}

/// The scalar in `[0, 1)` that the top sixteen bits of a word spell.
pub open spec fn unit_sample(key: u64) -> Fixed {
    (key >> 48) as Fixed
}

/// Stirs the bits of a word.
pub fn mix(x: u64) -> (r: u64)
    ensures
        r == mix_bits(x),
{
    let a: u64 = x.wrapping_add(0x9e37_79b9_7f4a_7c15);
    let b: u64 = (a ^ (a >> 30)).wrapping_mul(0xbf58_476d_1ce4_e5b9);
    let c: u64 = (b ^ (b >> 27)).wrapping_mul(0x94d0_49bb_1331_11eb);
    c ^ (c >> 31)
}

/// The two coordinates of a pixel in one word.
pub fn pack_pixel(pixel: Point2i) -> (r: u64)
    ensures
        r == pixel_bits(pixel),
{
    ((#[verifier::truncate] (pixel.x as u32) as u64) << 32) | (#[verifier::truncate] (pixel.y as u32) as u64)
}

/// The word from which a sample is made.
pub fn make_key(seed: u64, pixel: Point2i, index: u64, dim: u32) -> (r: u64)
    ensures
        r == sample_key(seed, pixel, index, dim),
{
    mix(mix(mix(seed ^ pack_pixel(pixel)) ^ index) ^ (dim as u64))
}

/// The scalar in `[0, 1)` that the top sixteen bits of a word spell.
pub fn to_unit(key: u64) -> (r: Fixed)
    ensures
        r == unit_sample(key),
        0 <= r < 65536,
{
    let top: u64 = key >> 48;
    assert(top < 0x1_0000) by (bit_vector)
        requires
            top == key >> 48,
    ;
    top as i32
}

/// The top sixteen bits of a word spell a scalar in `[0, 1)`.
pub proof fn lemma_unit_sample_range(key: u64)
    ensures
        0 <= unit_sample(key) < 65536,
{
    let top = key >> 48;
    assert(top < 0x1_0000) by (bit_vector)
        requires
            top == key >> 48,
    ;
}

} // verus!
