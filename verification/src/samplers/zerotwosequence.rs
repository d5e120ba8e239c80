//! The (0, 2)-sequence: the first two dimensions of the Sobol' sequence, scrambled.

use crate::fixed::{Fixed, ONE};
use crate::geometry::{Point2, Point2i};
use crate::rng::{lemma_unit_sample_range, make_key, sample_key, to_unit, unit_sample};
use crate::sampler::{first_array_dimension, Algorithm, SamplerCursor, SamplerView};
use crate::samplers::halton::{lemma_radical_inverse_bound, mirror_digits, radical_inverse};
use vstd::prelude::*;

verus! {

/// The index under which the scramble of a dimension is drawn.
pub const SCRAMBLE_INDEX: u64 = 0xffff_ffff_ffff_fffe;

/// Whether `r` is a power of two.
pub open spec fn is_power_of_two(r: int) -> bool
    decreases r,
{
    r == 1 || (r > 1 && r % 2 == 0 && is_power_of_two(r / 2))
}

/// The sixteen bits with which the numbers of a dimension are scrambled.
pub open spec fn scramble(seed: u64, pixel: Point2i, dim: u32) -> u32 {
    unit_sample(sample_key(seed, pixel, SCRAMBLE_INDEX, dim)) as u32
}

/// The first sixteen bits of the second coordinate of the point `index` of the Sobol'
/// sequence: the columns of its generator matrix, from `k` on, added up over the bits of
/// `index` that are set. `c` is the column `k` and `v` the sum so far.
pub open spec fn sobol_sum(index: u64, k: nat, c: u32, v: u32) -> u32
    decreases 16 - k,
{
    if k >= 16 {
        v
    } else {
        sobol_sum(
            index,
            k + 1,
            c ^ (c >> 1),
            if (index >> (k as u64)) & 1 == 1 {
                v ^ c
            } else {
                v
            },
        )
    }
}

/// The number of a sample in one dimension: the van der Corput number of the sample,
/// scrambled.
pub open spec fn zero_two_1d(seed: u64, pixel: Point2i, index: u64, dim: u32) -> Fixed {
    ((radical_inverse(2, index as int, ONE as int) as u32) ^ scramble(seed, pixel, dim)) as Fixed
}

/// The pair of a sample in a dimension and the next: the point of the (0, 2)-sequence,
/// each coordinate scrambled.
pub open spec fn zero_two_2d(seed: u64, pixel: Point2i, index: u64, dim: u32) -> Point2 {
    Point2 {
        x: zero_two_1d(seed, pixel, index, dim),
        y: (sobol_sum(index, 0, 0x8000, 0) ^ scramble(seed, pixel, dim.wrapping_add(1))) as Fixed,
    }
}

/// Two numbers of sixteen bits add up, bit by bit, to a number of sixteen bits.
pub proof fn lemma_xor_sixteen(a: u32, b: u32)
    by (bit_vector)
    requires
        a < 0x1_0000,
        b < 0x1_0000,
    ensures
        a ^ b < 0x1_0000,
{
}

/// Shifting a number of sixteen bits to the right leaves a number of sixteen bits.
pub proof fn lemma_shift_sixteen(a: u32)
    by (bit_vector)
    requires
        a < 0x1_0000,
    ensures
        (a >> 1) < 0x1_0000,
{
}

/// Two to the power `k`.
pub open spec fn two_to(k: nat) -> int
    decreases k,
{
    if k == 0 {
        1
    } else {
        2 * two_to((k - 1) as nat)
    }
}

/// Two to any power is a power of two, and a larger power gives a larger number.
pub proof fn lemma_two_to(k: nat)
    ensures
        is_power_of_two(two_to(k)),
        two_to(k) >= 1,
        k < 30 ==> two_to(k) <= 0x2000_0000,
        k == 30 ==> two_to(k) == 0x4000_0000,
    decreases k,
{
    if k > 0 {
        lemma_two_to((k - 1) as nat);
        assert((2 * two_to((k - 1) as nat)) / 2 == two_to((k - 1) as nat));
    }
    if k <= 30 {
        lemma_two_to_grows(k, 30);
        assert(two_to(30) == 0x4000_0000) by {
            reveal_with_fuel(two_to, 31);
        }
        if k < 30 {
            lemma_two_to_grows(k, 29);
            assert(two_to(29) == 0x2000_0000) by {
                reveal_with_fuel(two_to, 30);
            }
        }
    }
}

/// A larger power of two is a larger number.
pub proof fn lemma_two_to_grows(j: nat, k: nat)
    requires
        j <= k,
    ensures
        1 <= two_to(j) <= two_to(k),
    decreases k,
{
    if j < k {
        lemma_two_to_grows(j, (k - 1) as nat);
    } else if k > 0 {
        lemma_two_to_grows((j - 1) as nat, (k - 1) as nat);
    }
}

fn draw_scramble(seed: u64, pixel: Point2i, dim: u32) -> (r: u32)
    ensures
        r == scramble(seed, pixel, dim),
        r < 0x1_0000,
{
    to_unit(make_key(seed, pixel, SCRAMBLE_INDEX, dim)) as u32
}

/// The first sixteen bits of the second coordinate of a point of the Sobol' sequence.
pub fn sobol_second(index: u64) -> (r: u32)
    ensures
        r == sobol_sum(index, 0, 0x8000, 0),
        r < 0x1_0000,
{
    let mut k: u32 = 0;
    let mut c: u32 = 0x8000;
    let mut v: u32 = 0;
    while k < 16
        invariant
            k <= 16,
            c < 0x1_0000,
            v < 0x1_0000,
            sobol_sum(index, k as nat, c, v) == sobol_sum(index, 0, 0x8000, 0),
        decreases 16 - k,
    {
        proof {
            lemma_xor_sixteen(v, c);
            lemma_shift_sixteen(c);
            lemma_xor_sixteen(c, c >> 1);
        }
        if (index >> (k as u64)) & 1 == 1 {
            v = v ^ c;
        }
        c = c ^ (c >> 1);
        k = k + 1;
    }
    v
}

/// The number of a sample in one dimension.
pub fn sample_zero_two_1d(seed: u64, pixel: Point2i, index: u64, dim: u32) -> (r: Fixed)
    ensures
        r == zero_two_1d(seed, pixel, index, dim),
        0 <= r < ONE,
{
    let vdc: u32 = mirror_digits(2, index as u128) as u32;
    let s: u32 = draw_scramble(seed, pixel, dim);
    proof {
        lemma_xor_sixteen(vdc, s);
    }
    (vdc ^ s) as i32
}

/// The pair of a sample in a dimension and the next.
pub fn sample_zero_two_2d(seed: u64, pixel: Point2i, index: u64, dim: u32) -> (r: Point2)
    ensures
        r == zero_two_2d(seed, pixel, index, dim),
        0 <= r.x < ONE,
        0 <= r.y < ONE,
{
    let x: Fixed = sample_zero_two_1d(seed, pixel, index, dim);
    let sob: u32 = sobol_second(index);
    let s: u32 = draw_scramble(seed, pixel, dim.wrapping_add(1));
    proof {
        lemma_xor_sixteen(sob, s);
    }
    Point2 { x, y: (sob ^ s) as i32 }
}

/// The least power of two that is not below `n`; for a count beyond the largest power of
/// two that a count can be, that power.
pub fn round_up_pow2(n: i32) -> (r: i32)
    ensures
        is_power_of_two(r as int),
        r <= 0x4000_0000,
        n <= 0x4000_0000 ==> n <= r,
        r == 1 || r / 2 < n,
{
    let mut r: i32 = 1;
    let mut k: u32 = 0;
    proof {
        lemma_two_to(0);
    }
    while r < n && k < 30
        invariant
            k <= 30,
            r == two_to(k as nat),
            1 <= r <= 0x4000_0000,
            is_power_of_two(r as int),
            r == 1 || r / 2 < n,
        decreases 30 - k,
    {
        proof {
            lemma_two_to(k as nat);
            lemma_two_to((k + 1) as nat);
        }
        r = 2 * r;
        k = k + 1;
    }
    proof {
        lemma_two_to(k as nat);
    }
    r
}

/// A sampler that places samples along a scrambled (0, 2)-sequence. It wants the number of
/// samples to be a power of two.
#[derive(Debug, PartialEq, Eq)]
pub struct ZeroTwoSequenceSampler {
    pub cursor: SamplerCursor,
}

impl View for ZeroTwoSequenceSampler {
    type V = SamplerView;

    open spec fn view(&self) -> SamplerView {
        SamplerView { algorithm: Algorithm::ZeroTwoSequence, cursor: self.cursor@ }
    }
}

impl ZeroTwoSequenceSampler {
    /// A sampler that takes in every pixel the least power of two of samples that is not
    /// below `samples_per_pixel`.
    pub fn new(samples_per_pixel: i32, seed: u64) -> (r: Self)
        ensures
            r@.algorithm == Algorithm::ZeroTwoSequence,
            r@.cursor.with_samples(0) == SamplerCursor::new_view(0, seed),
            is_power_of_two(r@.cursor.samples_per_pixel as int),
            samples_per_pixel <= 0x4000_0000 ==> samples_per_pixel <= r@.cursor.samples_per_pixel,
            r@.cursor.samples_per_pixel == 1 || r@.cursor.samples_per_pixel / 2 < samples_per_pixel,
    {
        ZeroTwoSequenceSampler {
            cursor: SamplerCursor::new(round_up_pow2(samples_per_pixel) as i64, seed),
        }
    }

    /// The next number of the current sample.
    pub fn get_1d(&mut self) -> (r: Fixed)
        ensures
            r == old(self)@.value_1d(),
            final(self)@ == old(self)@.advanced(1),
            0 <= r < ONE,
    {
        let r: Fixed = sample_zero_two_1d(
            self.cursor.seed,
            self.cursor.current_pixel,
            self.cursor.sample_index(),
            self.cursor.dimension,
        );
        self.cursor.advance(1);
        r
    }

    /// The next pair of the current sample.
    pub fn get_2d(&mut self) -> (r: Point2)
        ensures
            r == old(self)@.value_2d(),
            final(self)@ == old(self)@.advanced(2),
            0 <= r.x < ONE,
            0 <= r.y < ONE,
    {
        let r: Point2 = sample_zero_two_2d(
            self.cursor.seed,
            self.cursor.current_pixel,
            self.cursor.sample_index(),
            self.cursor.dimension,
        );
        self.cursor.advance(2);
        r
    }

    /// The sample at the place `idx` of the array `array_idx`.
    pub fn get_2d_sample(&self, array_idx: usize, idx: usize) -> (r: Point2)
        ensures
            r == self@.array_value(array_idx, idx),
            0 <= r.x < ONE,
            0 <= r.y < ONE,
    {
        sample_zero_two_2d(
            self.cursor.seed,
            self.cursor.current_pixel,
            idx as u64,
            first_array_dimension(array_idx),
        )
    }

    /// The number of samples to ask for in place of `count`: the least power of two that
    /// is not below it.
    pub fn round_count(&self, count: i32) -> (r: i32)
        ensures
            is_power_of_two(r as int),
            r <= 0x4000_0000,
            count <= 0x4000_0000 ==> count <= r,
            r == 1 || r / 2 < count,
    {
        round_up_pow2(count)
    }
}

/// The sum of columns of the Sobol' matrix has sixteen bits.
pub proof fn lemma_sobol_sum_range(index: u64, k: nat, c: u32, v: u32)
    requires
        c < 0x1_0000,
        v < 0x1_0000,
    ensures
        sobol_sum(index, k, c, v) < 0x1_0000,
    decreases 16 - k,
{
    if k < 16 {
        lemma_xor_sixteen(v, c);
        lemma_shift_sixteen(c);
        lemma_xor_sixteen(c, c >> 1);
        lemma_sobol_sum_range(
            index,
            k + 1,
            c ^ (c >> 1),
            if (index >> (k as u64)) & 1 == 1 {
                v ^ c
            } else {
                v
            },
        );
    }
}

/// A number and a pair of the (0, 2)-sequence lie in the unit interval.
pub proof fn lemma_zero_two_in_unit_interval(seed: u64, pixel: Point2i, index: u64, dim: u32)
    ensures
        0 <= zero_two_1d(seed, pixel, index, dim) < ONE,
        0 <= zero_two_2d(seed, pixel, index, dim).x < ONE,
        0 <= zero_two_2d(seed, pixel, index, dim).y < ONE,
{
    lemma_radical_inverse_bound(2, index as int, ONE as int);
    lemma_unit_sample_range(sample_key(seed, pixel, SCRAMBLE_INDEX, dim));
    lemma_unit_sample_range(sample_key(seed, pixel, SCRAMBLE_INDEX, dim.wrapping_add(1)));
    lemma_sobol_sum_range(index, 0, 0x8000, 0);
    lemma_xor_sixteen(radical_inverse(2, index as int, ONE as int) as u32, scramble(seed, pixel, dim));
    lemma_xor_sixteen(sobol_sum(index, 0, 0x8000, 0), scramble(seed, pixel, dim.wrapping_add(1)));
}

} // verus!
