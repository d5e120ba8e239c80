//! The Halton sequence: radical inverses in prime bases.

use crate::fixed::{Fixed, ONE};
use crate::geometry::{Point2, Point2i};
use crate::rng::{make_key, sample_key};
use crate::sampler::{first_array_dimension, Algorithm, SamplerCursor, SamplerView};
use vstd::prelude::*;

verus! {

/// One of the first sixteen primes: the base of a dimension.
pub open spec fn nth_prime(k: u32) -> u64 {
    let i = k % 16;
    if i == 0 {
        2
    } else if i == 1 {
        3
    } else if i == 2 {
        5
    } else if i == 3 {
        7
    } else if i == 4 {
        11
    } else if i == 5 {
        13
    } else if i == 6 {
        17
    } else if i == 7 {
        19
    } else if i == 8 {
        23
    } else if i == 9 {
        29
    } else if i == 10 {
        31
    } else if i == 11 {
        37
    } else if i == 12 {
        41
    } else if i == 13 {
        43
    } else if i == 14 {
        47
    } else {
        53
    }
}

/// The digits of `a` in the given base, mirrored at the point, in units of `1 / scale`:
/// the first digit counts `scale / base`, the next one that over `base` again, and so on
/// for as long as a digit still counts. It is the radical inverse of `a`, digit by digit
/// rounded down.
pub open spec fn radical_inverse(base: int, a: int, scale: int) -> int
    decreases scale,
{
    if base < 2 || a <= 0 || scale < base {
        0
    } else {
        proof {
            assert(0 <= scale / base < scale) by (nonlinear_arith)
                requires
                    base >= 2,
                    scale >= base,
            ;
        }
        (a % base) * (scale / base) + radical_inverse(base, a / base, scale / base)
    }
}

/// Where in the sequence the samples of a pixel begin.
pub open spec fn halton_offset(pixel: Point2i) -> u64 {
    sample_key(0, pixel, 0, 0) >> 44
}

/// The number of a sample in one dimension: the radical inverse, in the base of the
/// dimension, of the sample's place in the sequence.
pub open spec fn halton_1d(pixel: Point2i, index: u64, dim: u32) -> Fixed {
    radical_inverse(nth_prime(dim) as int, halton_offset(pixel) + index, ONE as int) as Fixed
}

/// The pair of a sample in a dimension and the next.
pub open spec fn halton_2d(pixel: Point2i, index: u64, dim: u32) -> Point2 {
    Point2 { x: halton_1d(pixel, index, dim), y: halton_1d(pixel, index, dim.wrapping_add(1)) }
}

/// A mirrored number stays below its scale.
pub proof fn lemma_radical_inverse_bound(base: int, a: int, scale: int)
    requires
        scale > 0,
    ensures
        0 <= radical_inverse(base, a, scale) < scale,
    decreases scale,
{
    if base < 2 || a <= 0 || scale < base {
    } else {
        let s = scale / base;
        assert(0 < s < scale && base * s <= scale) by (nonlinear_arith)
            requires
                base >= 2,
                scale >= base,
                s == scale / base,
        ;
        lemma_radical_inverse_bound(base, a / base, s);
        assert(0 <= (a % base) * s <= (base - 1) * s) by (nonlinear_arith)
            requires
                base >= 2,
                s > 0,
                0 <= a % base < base,
        ;
        assert((base - 1) * s + s == base * s) by (nonlinear_arith);
    }
}

/// One of the first sixteen primes.
pub fn prime_base(k: u32) -> (r: u64)
    ensures
        r == nth_prime(k),
        2 <= r <= 53,
{
    let i: u32 = k % 16;
    if i == 0 {
        2
    } else if i == 1 {
        3
    } else if i == 2 {
        5
    } else if i == 3 {
        7
    } else if i == 4 {
        11
    } else if i == 5 {
        13
    } else if i == 6 {
        17
    } else if i == 7 {
        19
    } else if i == 8 {
        23
    } else if i == 9 {
        29
    } else if i == 10 {
        31
    } else if i == 11 {
        37
    } else if i == 12 {
        41
    } else if i == 13 {
        43
    } else if i == 14 {
        47
    } else {
        53
    }
}

/// The radical inverse of `a` in the given base, in units of `1 / 65536`.
pub fn mirror_digits(base: u64, a0: u128) -> (r: Fixed)
    requires
        2 <= base <= 53,
    ensures
        r == radical_inverse(base as int, a0 as int, ONE as int),
        0 <= r < ONE,
{
    let mut a: u128 = a0;
    let mut scale: u64 = 65536;
    let mut acc: u64 = 0;
    proof {
        lemma_radical_inverse_bound(base as int, a0 as int, 65536);
    }
    while a > 0 && scale >= base
        invariant
            2 <= base <= 53,
            0 < scale <= 65536,
            acc + radical_inverse(base as int, a as int, scale as int) == radical_inverse(
                base as int,
                a0 as int,
                65536,
            ),
            0 <= radical_inverse(base as int, a0 as int, 65536) < 65536,
        decreases scale,
    {
        let s: u64 = scale / base;
        proof {
            assert(0 < s < scale) by (nonlinear_arith)
                requires
                    base >= 2,
                    scale >= base,
                    s == scale / base,
            ;
            lemma_radical_inverse_bound(base as int, (a / (base as u128)) as int, s as int);
            assert(0 <= (a % (base as u128)) * s) by (nonlinear_arith)
                requires
                    0 <= a % (base as u128),
                    s > 0,
            ;
        }
        acc = acc + ((a % (base as u128)) as u64) * s;
        a = a / (base as u128);
        scale = s;
    }
    acc as i32
}

/// Where in the sequence the samples of a pixel begin.
pub fn pixel_offset(pixel: Point2i) -> (r: u64)
    ensures
        r == halton_offset(pixel),
        r < 0x10_0000,
{
    let key: u64 = make_key(0, pixel, 0, 0);
    let r: u64 = key >> 44;
    assert(r < 0x10_0000) by (bit_vector)
        requires
            r == key >> 44,
    ;
    r
}

/// The number of a sample in one dimension.
pub fn sample_halton_1d(pixel: Point2i, index: u64, dim: u32) -> (r: Fixed)
    ensures
        r == halton_1d(pixel, index, dim),
        0 <= r < ONE,
{
    mirror_digits(prime_base(dim), pixel_offset(pixel) as u128 + index as u128)
}

/// The pair of a sample in a dimension and the next.
pub fn sample_halton_2d(pixel: Point2i, index: u64, dim: u32) -> (r: Point2)
    ensures
        r == halton_2d(pixel, index, dim),
        0 <= r.x < ONE,
        0 <= r.y < ONE,
{
    Point2 {
        x: sample_halton_1d(pixel, index, dim),
        y: sample_halton_1d(pixel, index, dim.wrapping_add(1)),
    }
}

/// A sampler that places the samples of the whole image along one Halton sequence. It can
/// jump to any sample, and it takes no notice of its seed.
#[derive(Debug, PartialEq, Eq)]
pub struct HaltonSampler {
    pub cursor: SamplerCursor,
}

impl View for HaltonSampler {
    type V = SamplerView;

    open spec fn view(&self) -> SamplerView {
        SamplerView { algorithm: Algorithm::Halton, cursor: self.cursor@ }
    }
}

impl HaltonSampler {
    /// A sampler that takes `samples_per_pixel` samples in every pixel.
    pub fn new(samples_per_pixel: i64) -> (r: Self)
        ensures
            r@.algorithm == Algorithm::Halton,
            r@.cursor == SamplerCursor::new_view(samples_per_pixel, 0),
    {
        HaltonSampler { cursor: SamplerCursor::new(samples_per_pixel, 0) }
    }

    /// The next number of the current sample.
    pub fn get_1d(&mut self) -> (r: Fixed)
        ensures
            r == old(self)@.value_1d(),
            final(self)@ == old(self)@.advanced(1),
            0 <= r < ONE,
    {
        let r: Fixed = sample_halton_1d(
            self.cursor.current_pixel,
            self.cursor.sample_index(),
            self.cursor.dimension,
        );
        self.cursor.advance(1);
        r
    }

    /// The next pair of the current sample.
    pub fn get_2d(&mut self) -> (r: Point2)
        ensures
            r == old(self)@.value_2d(),
            final(self)@ == old(self)@.advanced(2),
            0 <= r.x < ONE,
            0 <= r.y < ONE,
    {
        let r: Point2 = sample_halton_2d(
            self.cursor.current_pixel,
            self.cursor.sample_index(),
            self.cursor.dimension,
        );
        self.cursor.advance(2);
        r
    }

    /// The sample at the place `idx` of the array `array_idx`.
    pub fn get_2d_sample(&self, array_idx: usize, idx: usize) -> (r: Point2)
        ensures
            r == self@.array_value(array_idx, idx),
            0 <= r.x < ONE,
            0 <= r.y < ONE,
    {
        sample_halton_2d(self.cursor.current_pixel, idx as u64, first_array_dimension(array_idx))
    }

    /// The number of samples to ask for in place of `count`: any count will do.
    pub fn round_count(&self, count: i32) -> (r: i32)
        ensures
            r == count,
    {
        count
    }
}

/// A number of the Halton sequence lies in the unit interval.
pub proof fn lemma_halton_in_unit_interval(pixel: Point2i, index: u64, dim: u32)
    ensures
        0 <= halton_1d(pixel, index, dim) < ONE,
{
    lemma_radical_inverse_bound(nth_prime(dim) as int, halton_offset(pixel) + index, ONE as int);
}

} // verus!
