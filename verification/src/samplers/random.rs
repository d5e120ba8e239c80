//! Independent uniform random numbers.

use crate::fixed::{Fixed, ONE};
use crate::geometry::{Point2, Point2i};
use crate::rng::{lemma_unit_sample_range, make_key, sample_key, to_unit, unit_sample};
use crate::sampler::{first_array_dimension, Algorithm, SamplerCursor, SamplerView};
use vstd::prelude::*;

verus! {

/// The uniform random number of a sample in one dimension.
pub open spec fn random_1d(seed: u64, pixel: Point2i, index: u64, dim: u32) -> Fixed {
    unit_sample(sample_key(seed, pixel, index, dim))
}

/// The pair of uniform random numbers of a sample in a dimension and the next.
pub open spec fn random_2d(seed: u64, pixel: Point2i, index: u64, dim: u32) -> Point2 {
    Point2 {
        x: random_1d(seed, pixel, index, dim),
        y: random_1d(seed, pixel, index, dim.wrapping_add(1)),
    }
}

/// The uniform random number of a sample in one dimension.
pub fn sample_random_1d(seed: u64, pixel: Point2i, index: u64, dim: u32) -> (r: Fixed)
    ensures
        r == random_1d(seed, pixel, index, dim),
        0 <= r < ONE,
{
    to_unit(make_key(seed, pixel, index, dim))
}

/// The pair of uniform random numbers of a sample in a dimension and the next.
pub fn sample_random_2d(seed: u64, pixel: Point2i, index: u64, dim: u32) -> (r: Point2)
    ensures
        r == random_2d(seed, pixel, index, dim),
        0 <= r.x < ONE,
        0 <= r.y < ONE,
{
    Point2 {
        x: sample_random_1d(seed, pixel, index, dim),
        y: sample_random_1d(seed, pixel, index, dim.wrapping_add(1)),
    }
}

/// A sampler that hands out independent uniform random numbers.
#[derive(Debug, PartialEq, Eq)]
pub struct RandomSampler {
    pub cursor: SamplerCursor,
}

impl View for RandomSampler {
    type V = SamplerView;

    open spec fn view(&self) -> SamplerView {
        SamplerView { algorithm: Algorithm::Random, cursor: self.cursor@ }
    }
}

impl RandomSampler {
    /// A sampler that takes `samples_per_pixel` samples in every pixel.
    pub fn new(samples_per_pixel: i64, seed: u64) -> (r: Self)
        ensures
            r@.algorithm == Algorithm::Random,
            r@.cursor == SamplerCursor::new_view(samples_per_pixel, seed),
    {
        RandomSampler { cursor: SamplerCursor::new(samples_per_pixel, seed) }
    }

    /// The next number of the current sample.
    pub fn get_1d(&mut self) -> (r: Fixed)
        ensures
            r == old(self)@.value_1d(),
            final(self)@ == old(self)@.advanced(1),
            0 <= r < ONE,
    {
        let r: Fixed = sample_random_1d(
            self.cursor.seed,
            self.cursor.current_pixel,
            self.cursor.sample_index(),
            self.cursor.dimension,
        );
        self.cursor.advance(1);
        r
    }

    /// The next pair of the current sample.
    pub fn get_2d(&mut self) -> (r: Point2)
        ensures
            r == old(self)@.value_2d(),
            final(self)@ == old(self)@.advanced(2),
            0 <= r.x < ONE,
            0 <= r.y < ONE,
    {
        let r: Point2 = sample_random_2d(
            self.cursor.seed,
            self.cursor.current_pixel,
            self.cursor.sample_index(),
            self.cursor.dimension,
        );
        self.cursor.advance(2);
        r
    }

    /// The sample at the place `idx` of the array `array_idx`.
    pub fn get_2d_sample(&self, array_idx: usize, idx: usize) -> (r: Point2)
        ensures
            r == self@.array_value(array_idx, idx),
            0 <= r.x < ONE,
            0 <= r.y < ONE,
    {
        sample_random_2d(
            self.cursor.seed,
            self.cursor.current_pixel,
            idx as u64,
            first_array_dimension(array_idx),
        )
    }

    /// The number of samples to ask for in place of `count`: any count will do.
    pub fn round_count(&self, count: i32) -> (r: i32)
        ensures
            r == count,
    {
        count
    }
}

/// A uniform random number lies in the unit interval.
pub proof fn lemma_random_in_unit_interval(seed: u64, pixel: Point2i, index: u64, dim: u32)
    ensures
        0 <= random_1d(seed, pixel, index, dim) < ONE,
{
    lemma_unit_sample_range(sample_key(seed, pixel, index, dim));
}

} // verus!
