//! Stratified samples: one in every stratum of a dimension, one in every cell of a grid.

use crate::fixed::{Fixed, ONE};
use crate::geometry::{Point2, Point2i};
use crate::rng::{make_key, sample_key};
use crate::sampler::{first_array_dimension, Algorithm, SamplerCursor, SamplerView};
use crate::samplers::random::{lemma_random_in_unit_interval, random_1d, sample_random_1d};
use vstd::prelude::*;

verus! {

/// The index under which the rotation of a dimension's strata is drawn.
pub const ROTATION_INDEX: u64 = 0xffff_ffff_ffff_ffff;

/// The middle of a stratum.
pub const HALF: Fixed = 32768;

/// A count of strata: at least one.
pub open spec fn at_least_one(n: int) -> int {
    if n < 1 {
        1
    } else {
        n
    }
}

/// The stratum of the sample `index` among `n` strata that are visited in rotated order.
/// Any `n` samples in a row visit every stratum once.
pub open spec fn rotated_stratum(index: u64, rot: u64, n: int) -> int {
    ((index as int) % n + (rot as int) % n) % n
}

/// The place of a sample inside its stratum: random, or the middle.
pub open spec fn jitter(jitter_samples: bool, seed: u64, pixel: Point2i, index: u64, dim: u32) -> Fixed {
    if jitter_samples {
        random_1d(seed, pixel, index, dim)
    } else {
        HALF
    }
}

/// The number at the place `j` of the stratum `stratum` of `n` equal strata of `[0, 1)`.
pub open spec fn place_in_stratum(stratum: int, j: Fixed, n: int) -> Fixed {
    ((stratum * ONE + j) / n) as Fixed
}

/// The stratified number of a sample in one dimension, with `spp` strata.
pub open spec fn stratified_1d(
    spp: i64,
    jitter_samples: bool,
    seed: u64,
    pixel: Point2i,
    index: u64,
    dim: u32,
) -> Fixed {
    let n = at_least_one(spp as int);
    let rot = sample_key(seed, pixel, ROTATION_INDEX, dim);
    place_in_stratum(
        rotated_stratum(index, rot, n),
        jitter(jitter_samples, seed, pixel, index, dim),
        n,
    )
}

/// The stratified pair of a sample in a dimension and the next, on a grid of `nx` by `ny`
/// cells.
pub open spec fn stratified_2d(
    nx: i32,
    ny: i32,
    jitter_samples: bool,
    seed: u64,
    pixel: Point2i,
    index: u64,
    dim: u32,
) -> Point2 {
    let cx = at_least_one(nx as int);
    let cy = at_least_one(ny as int);
    let rot = sample_key(seed, pixel, ROTATION_INDEX, dim);
    let cell = rotated_stratum(index, rot, cx * cy);
    Point2 {
        x: place_in_stratum(cell % cx, jitter(jitter_samples, seed, pixel, index, dim), cx),
        y: place_in_stratum(
            cell / cx,
            jitter(jitter_samples, seed, pixel, index, dim.wrapping_add(1)),
            cy,
        ),
    }
}

/// A number below `n * k` has a quotient by `n` below `k`.
pub proof fn lemma_quotient_below(a: int, n: int, k: int)
    by (nonlinear_arith)
    requires
        n > 0,
        0 <= a < n * k,
    ensures
        0 <= a / n < k,
{
}

/// A product of two positive numbers is positive, and bounded by the product of bounds.
pub proof fn lemma_cells(cx: int, cy: int)
    by (nonlinear_arith)
    requires
        1 <= cx <= 0x7fff_ffff,
        1 <= cy <= 0x7fff_ffff,
    ensures
        1 <= cx * cy <= 0x3fff_ffff_0000_0001,
{
}

fn pick_jitter(jitter_samples: bool, seed: u64, pixel: Point2i, index: u64, dim: u32) -> (r: Fixed)
    ensures
        r == jitter(jitter_samples, seed, pixel, index, dim),
        0 <= r < ONE,
{
    if jitter_samples {
        sample_random_1d(seed, pixel, index, dim)
    } else {
        HALF
    }
}

fn stratum_of(index: u64, rot: u64, n: u64) -> (r: u64)
    requires
        1 <= n <= 0x7fff_ffff_ffff_ffff,
    ensures
        r == rotated_stratum(index, rot, n as int),
        r < n,
{
    ((index % n) as u128 + (rot % n) as u128) as u64 % n
}

fn place(stratum: u64, j: Fixed, n: u64) -> (r: Fixed)
    requires
        stratum < n,
        0 <= j < ONE,
    ensures
        r == place_in_stratum(stratum as int, j, n as int),
        0 <= r < ONE,
{
    proof {
        assert(stratum * ONE + j < n * ONE) by (nonlinear_arith)
            requires
                stratum < n,
                0 <= j < ONE,
                ONE == 65536,
        ;
        lemma_quotient_below(stratum * ONE + j, n as int, ONE as int);
    }
    (((stratum as u128) * 65536 + (j as u128)) / (n as u128)) as i32
}

/// The stratified number of a sample in one dimension.
pub fn sample_stratified_1d(
    spp: i64,
    jitter_samples: bool,
    seed: u64,
    pixel: Point2i,
    index: u64,
    dim: u32,
) -> (r: Fixed)
    ensures
        r == stratified_1d(spp, jitter_samples, seed, pixel, index, dim),
        0 <= r < ONE,
{
    let n: u64 = if spp < 1 {
        1
    } else {
        spp as u64
    };
    let rot: u64 = make_key(seed, pixel, ROTATION_INDEX, dim);
    place(stratum_of(index, rot, n), pick_jitter(jitter_samples, seed, pixel, index, dim), n)
}

/// The stratified pair of a sample in a dimension and the next.
pub fn sample_stratified_2d(
    nx: i32,
    ny: i32,
    jitter_samples: bool,
    seed: u64,
    pixel: Point2i,
    index: u64,
    dim: u32,
) -> (r: Point2)
    ensures
        r == stratified_2d(nx, ny, jitter_samples, seed, pixel, index, dim),
        0 <= r.x < ONE,
        0 <= r.y < ONE,
{
    let cx: u64 = if nx < 1 {
        1
    } else {
        nx as u64
    };
    let cy: u64 = if ny < 1 {
        1
    } else {
        ny as u64
    };
    proof {
        lemma_cells(cx as int, cy as int);
    }
    let rot: u64 = make_key(seed, pixel, ROTATION_INDEX, dim);
    let cell: u64 = stratum_of(index, rot, cx * cy);
    proof {
        lemma_quotient_below(cell as int, cx as int, cy as int);
    }
    Point2 {
        x: place(cell % cx, pick_jitter(jitter_samples, seed, pixel, index, dim), cx),
        y: place(
            cell / cx,
            pick_jitter(jitter_samples, seed, pixel, index, dim.wrapping_add(1)),
            cy,
        ),
    }
}

/// A sampler that places one sample in every cell of a grid over the pixel, and in every
/// stratum of each single dimension.
#[derive(Debug, PartialEq, Eq)]
pub struct StratifiedSampler {
    pub cursor: SamplerCursor,
    pub x_pixel_samples: i32,
    pub y_pixel_samples: i32,
    pub jitter_samples: bool,
}

impl View for StratifiedSampler {
    type V = SamplerView;

    open spec fn view(&self) -> SamplerView {
        SamplerView {
            algorithm: Algorithm::Stratified {
                x_pixel_samples: self.x_pixel_samples,
                y_pixel_samples: self.y_pixel_samples,
                jitter_samples: self.jitter_samples,
            },
            cursor: self.cursor@,
        }
    }
}

impl StratifiedSampler {
    /// A sampler with a grid of `x_pixel_samples` by `y_pixel_samples` cells, each at least
    /// one; it takes as many samples in every pixel as the grid has cells.
    pub fn new(x_pixel_samples: i32, y_pixel_samples: i32, jitter_samples: bool, seed: u64) -> (r:
        Self)
        ensures
            r@.algorithm == (Algorithm::Stratified {
                x_pixel_samples: at_least_one(x_pixel_samples as int) as i32,
                y_pixel_samples: at_least_one(y_pixel_samples as int) as i32,
                jitter_samples,
            }),
            r@.cursor == SamplerCursor::new_view(
                (at_least_one(x_pixel_samples as int) * at_least_one(y_pixel_samples as int)) as i64,
                seed,
            ),
    {
        let nx: i32 = if x_pixel_samples < 1 {
            1
        } else {
            x_pixel_samples
        };
        let ny: i32 = if y_pixel_samples < 1 {
            1
        } else {
            y_pixel_samples
        };
        proof {
            lemma_cells(nx as int, ny as int);
        }
        StratifiedSampler {
            cursor: SamplerCursor::new((nx as i64) * (ny as i64), seed),
            x_pixel_samples: nx,
            y_pixel_samples: ny,
            jitter_samples,
        }
    }

    /// The next number of the current sample.
    pub fn get_1d(&mut self) -> (r: Fixed)
        ensures
            r == old(self)@.value_1d(),
            final(self)@ == old(self)@.advanced(1),
            0 <= r < ONE,
    {
        let r: Fixed = sample_stratified_1d(
            self.cursor.samples_per_pixel,
            self.jitter_samples,
            self.cursor.seed,
            self.cursor.current_pixel,
            self.cursor.sample_index(),
            self.cursor.dimension,
        );
        self.cursor.advance(1);
        r
    }

    /// The next pair of the current sample.
    pub fn get_2d(&mut self) -> (r: Point2)
        ensures
            r == old(self)@.value_2d(),
            final(self)@ == old(self)@.advanced(2),
            0 <= r.x < ONE,
            0 <= r.y < ONE,
    {
        let r: Point2 = sample_stratified_2d(
            self.x_pixel_samples,
            self.y_pixel_samples,
            self.jitter_samples,
            self.cursor.seed,
            self.cursor.current_pixel,
            self.cursor.sample_index(),
            self.cursor.dimension,
        );
        self.cursor.advance(2);
        r
    }

    /// The sample at the place `idx` of the array `array_idx`.
    pub fn get_2d_sample(&self, array_idx: usize, idx: usize) -> (r: Point2)
        ensures
            r == self@.array_value(array_idx, idx),
            0 <= r.x < ONE,
            0 <= r.y < ONE,
    {
        sample_stratified_2d(
            self.x_pixel_samples,
            self.y_pixel_samples,
            self.jitter_samples,
            self.cursor.seed,
            self.cursor.current_pixel,
            idx as u64,
            first_array_dimension(array_idx),
        )
    }

    /// The number of samples to ask for in place of `count`: any count will do.
    pub fn round_count(&self, count: i32) -> (r: i32)
        ensures
            r == count,
    {
        count
    }
}

/// A number placed in a stratum lies in the unit interval.
pub proof fn lemma_place_in_unit_interval(stratum: int, j: Fixed, n: int)
    requires
        0 <= stratum < n,
        0 <= j < ONE,
    ensures
        0 <= place_in_stratum(stratum, j, n) < ONE,
{
    assert(0 <= stratum * ONE + j < n * ONE) by (nonlinear_arith)
        requires
            0 <= stratum < n,
            0 <= j < ONE,
            ONE == 65536,
    ;
    lemma_quotient_below(stratum * ONE + j, n, ONE as int);
}

/// A stratified number and a stratified pair lie in the unit interval.
pub proof fn lemma_stratified_in_unit_interval(
    spp: i64,
    nx: i32,
    ny: i32,
    jitter_samples: bool,
    seed: u64,
    pixel: Point2i,
    index: u64,
    dim: u32,
)
    ensures
        0 <= stratified_1d(spp, jitter_samples, seed, pixel, index, dim) < ONE,
        0 <= stratified_2d(nx, ny, jitter_samples, seed, pixel, index, dim).x < ONE,
        0 <= stratified_2d(nx, ny, jitter_samples, seed, pixel, index, dim).y < ONE,
{
    lemma_random_in_unit_interval(seed, pixel, index, dim);
    lemma_random_in_unit_interval(seed, pixel, index, dim.wrapping_add(1));
    let rot = sample_key(seed, pixel, ROTATION_INDEX, dim);
    let n = at_least_one(spp as int);
    lemma_place_in_unit_interval(
        rotated_stratum(index, rot, n),
        jitter(jitter_samples, seed, pixel, index, dim),
        n,
    );
    let cx = at_least_one(nx as int);
    let cy = at_least_one(ny as int);
    lemma_cells(cx, cy);
    let cell = rotated_stratum(index, rot, cx * cy);
    lemma_quotient_below(cell, cx, cy);
    lemma_place_in_unit_interval(cell % cx, jitter(jitter_samples, seed, pixel, index, dim), cx);
    lemma_place_in_unit_interval(
        cell / cx,
        jitter(jitter_samples, seed, pixel, index, dim.wrapping_add(1)),
        cy,
    );
}

/// Stratification: two samples whose indices differ modulo the number of strata fall
/// into different strata. So any run of as many samples as there are strata visits every
/// stratum once.
pub proof fn lemma_strata_visited_once(i: u64, j: u64, rot: u64, n: int)
    requires
        n >= 1,
        (i as int) % n != (j as int) % n,
    ensures
        rotated_stratum(i, rot, n) != rotated_stratum(j, rot, n),
        0 <= rotated_stratum(i, rot, n) < n,
{
    let a = (i as int) % n;
    let b = (j as int) % n;
    let r = (rot as int) % n;
    assert(0 <= a < n && 0 <= b < n && 0 <= r < n);
    lemma_wrapped_sum(a, r, n);
    lemma_wrapped_sum(b, r, n);
}

/// A sum of two numbers below `n`, taken modulo `n`, is the sum or the sum less `n`.
pub proof fn lemma_wrapped_sum(a: int, r: int, n: int)
    by (nonlinear_arith)
    requires
        0 <= a < n,
        0 <= r < n,
    ensures
        0 <= (a + r) % n < n,
        (a + r) % n == a + r || (a + r) % n == a + r - n,
{
}

/// A number placed in a stratum lies in that stratum: from `stratum / n` up to, but not
/// including, `(stratum + 1) / n`, give or take the rounding of one division.
pub proof fn lemma_placed_in_its_stratum(stratum: int, j: Fixed, n: int)
    requires
        0 <= stratum < n,
        0 <= j < ONE,
    ensures
        stratum * ONE - n < place_in_stratum(stratum, j, n) * n < (stratum + 1) * ONE,
{
    let a = stratum * ONE + j;
    assert(0 <= a < n * ONE) by (nonlinear_arith)
        requires
            0 <= stratum < n,
            0 <= j < ONE,
            a == stratum * ONE + j,
            ONE == 65536,
    ;
    lemma_quotient_below(a, n, ONE as int);
    assert(a - n < n * (a / n) <= a) by (nonlinear_arith)
        requires
            a >= 0,
            n > 0,
    ;
    assert(place_in_stratum(stratum, j, n) * n == n * (a / n)) by (nonlinear_arith)
        requires
            place_in_stratum(stratum, j, n) == a / n,
    ;
}

} // verus!
