//! Samplers: one interface over a closed set of algorithms that place sample values for
//! every pixel, sample and dimension. What a sampler hands out is a function of its state
//! alone, so that every image can be rendered again bit for bit.

use crate::camera::CameraSample;
use crate::fixed::{fixed_add, fixed_from_int, fx, Fixed, ONE};
use crate::geometry::{Point2, Point2i};
use crate::integrators::mlt::{lemma_chain_value_in_unit_interval, ChainView, MLTSampler};
use crate::samplers::halton::{
    halton_1d, halton_2d, lemma_halton_in_unit_interval, HaltonSampler,
};
use crate::samplers::random::{
    lemma_random_in_unit_interval, random_1d, random_2d, RandomSampler,
};
use crate::samplers::stratified::{
    lemma_stratified_in_unit_interval, stratified_1d, stratified_2d, StratifiedSampler,
};
use crate::samplers::zerotwosequence::{
    is_power_of_two, lemma_zero_two_in_unit_interval, zero_two_1d, zero_two_2d,
    ZeroTwoSequenceSampler,
};
use vstd::prelude::*;

verus! {

/// The first dimension that the arrays of samples use; every array takes two.
pub const ARRAY_DIMENSION: u32 = 0x8000_0000;

/// A way to place samples, as a mathematical value.
pub enum Algorithm {
    /// The Halton sequence: one sequence for the whole image.
    Halton,
    /// A chain of mutations, in its current state.
    Mlt(ChainView),
    /// Independent uniform random numbers.
    Random,
    /// One sample in every cell of a grid over the pixel.
    Stratified { x_pixel_samples: i32, y_pixel_samples: i32, jitter_samples: bool },
    /// The (0, 2)-sequence, scrambled.
    ZeroTwoSequence,
}

/// The position of a sampler in its stream of samples, as a mathematical value.
pub struct CursorView {
    pub samples_per_pixel: i64,
    pub seed: u64,
    pub current_pixel: Point2i,
    pub current_pixel_sample_index: i64,
    /// The next dimension to hand out.
    pub dimension: u32,
    /// The sizes of the arrays of samples that were asked for, in the order of asking.
    pub array_sizes: Seq<i32>,
    /// The next array to hand out.
    pub array_offset: usize,
}

/// A sampler as a mathematical value: what it hands out depends on this and nothing else.
pub struct SamplerView {
    pub algorithm: Algorithm,
    pub cursor: CursorView,
}

impl CursorView {
    /// The index of the current sample as a natural number.
    pub open spec fn sample_index(self) -> u64 {
        if self.current_pixel_sample_index < 0 {
            0
        } else {
            self.current_pixel_sample_index as u64
        }
    }

    /// The cursor at the first sample of the pixel `p`.
    pub open spec fn at_pixel(self, p: Point2i) -> CursorView {
        CursorView {
            current_pixel: p,
            current_pixel_sample_index: 0,
            dimension: 0,
            array_offset: 0,
            ..self
        }
    }

    /// The cursor at the start of the sample `n` of the current pixel.
    pub open spec fn at_sample(self, n: i64) -> CursorView {
        CursorView { current_pixel_sample_index: n, dimension: 0, array_offset: 0, ..self }
    }

    /// The cursor at the start of the next sample of the current pixel.
    pub open spec fn at_next_sample(self) -> CursorView {
        self.at_sample(
            if self.current_pixel_sample_index < i64::MAX {
                (self.current_pixel_sample_index + 1) as i64
            } else {
                self.current_pixel_sample_index
            },
        )
    }

    /// The cursor after `k` dimensions have been handed out.
    pub open spec fn advanced(self, k: u32) -> CursorView {
        CursorView { dimension: self.dimension.wrapping_add(k), ..self }
    }

    /// The cursor with another number of samples in every pixel.
    pub open spec fn with_samples(self, samples_per_pixel: i64) -> CursorView {
        CursorView { samples_per_pixel, ..self }
    }

    /// The cursor with another seed.
    pub open spec fn with_seed(self, seed: u64) -> CursorView {
        CursorView { seed, ..self }
    }

    /// The cursor with one more array of `n` samples asked for.
    pub open spec fn with_array(self, n: i32) -> CursorView {
        CursorView { array_sizes: self.array_sizes.push(n), ..self }
    }

    /// Whether the next array can be handed out as an array of `n` samples: it was asked
    /// for with that size, the current sample is within the pixel's budget, and the places
    /// of its samples can be written down.
    pub open spec fn array_available(self, n: i32) -> bool {
        &&& self.array_offset < self.array_sizes.len()
        &&& self.array_sizes[self.array_offset as int] == n
        &&& 0 <= n
        &&& 0 <= self.current_pixel_sample_index < self.samples_per_pixel
        &&& (self.current_pixel_sample_index + 1) * n <= usize::MAX
    }

    /// The place of the first sample of the current sample's part of an array of `n`.
    pub open spec fn array_start(self, n: i32) -> usize {
        (self.current_pixel_sample_index * n) as usize
    }

    /// The cursor after the next array has been asked for as an array of `n` samples.
    pub open spec fn after_array(self, n: i32) -> CursorView {
        if self.array_available(n) {
            CursorView { array_offset: (self.array_offset + 1) as usize, ..self }
        } else {
            self
        }
    }
}

/// The dimension in which the array `array_idx` begins.
pub open spec fn array_dimension(array_idx: usize) -> u32 {
    ARRAY_DIMENSION.wrapping_add((array_idx as u32).wrapping_mul(2))
}

impl SamplerView {
    /// The number that the algorithm places at the sample `index` in the dimension `dim`.
    pub open spec fn value_1d_at(self, index: u64, dim: u32) -> Fixed {
        match self.algorithm {
            Algorithm::Halton => halton_1d(self.cursor.current_pixel, index, dim),
            Algorithm::Mlt(_) => random_1d(self.cursor.seed, self.cursor.current_pixel, index, dim),
            Algorithm::Random => random_1d(self.cursor.seed, self.cursor.current_pixel, index, dim),
            Algorithm::Stratified { jitter_samples, .. } => stratified_1d(
                self.cursor.samples_per_pixel,
                jitter_samples,
                self.cursor.seed,
                self.cursor.current_pixel,
                index,
                dim,
            ),
            Algorithm::ZeroTwoSequence => zero_two_1d(
                self.cursor.seed,
                self.cursor.current_pixel,
                index,
                dim,
            ),
        }
    }

    /// The pair that the algorithm places at the sample `index` in the dimension `dim` and
    /// the next.
    pub open spec fn value_2d_at(self, index: u64, dim: u32) -> Point2 {
        match self.algorithm {
            Algorithm::Halton => halton_2d(self.cursor.current_pixel, index, dim),
            Algorithm::Mlt(_) => random_2d(self.cursor.seed, self.cursor.current_pixel, index, dim),
            Algorithm::Random => random_2d(self.cursor.seed, self.cursor.current_pixel, index, dim),
            Algorithm::Stratified { x_pixel_samples, y_pixel_samples, jitter_samples } => stratified_2d(
                x_pixel_samples,
                y_pixel_samples,
                jitter_samples,
                self.cursor.seed,
                self.cursor.current_pixel,
                index,
                dim,
            ),
            Algorithm::ZeroTwoSequence => zero_two_2d(
                self.cursor.seed,
                self.cursor.current_pixel,
                index,
                dim,
            ),
        }
    }

    /// The next number of the current sample: the next value of the chain for a chain of
    /// mutations, else the number that the algorithm places in the next dimension.
    pub open spec fn value_1d(self) -> Fixed {
        match self.algorithm {
            Algorithm::Mlt(chain) => chain.drawn(self.cursor.seed).0,
            _ => self.value_1d_at(self.cursor.sample_index(), self.cursor.dimension),
        }
    }

    /// The sampler after it has handed out a number.
    pub open spec fn after_1d(self) -> SamplerView {
        match self.algorithm {
            Algorithm::Mlt(chain) => SamplerView {
                algorithm: Algorithm::Mlt(chain.drawn(self.cursor.seed).1),
                ..self
            },
            _ => self.advanced(1),
        }
    }

    /// The next pair of the current sample: the next two values of the chain for a chain
    /// of mutations, else the pair that the algorithm places in the next two dimensions.
    pub open spec fn value_2d(self) -> Point2 {
        match self.algorithm {
            Algorithm::Mlt(_) => Point2 { x: self.value_1d(), y: self.after_1d().value_1d() },
            _ => self.value_2d_at(self.cursor.sample_index(), self.cursor.dimension),
        }
    }

    /// The sampler after it has handed out a pair.
    pub open spec fn after_2d(self) -> SamplerView {
        match self.algorithm {
            Algorithm::Mlt(_) => self.after_1d().after_1d(),
            _ => self.advanced(2),
        }
    }

    /// The sample at the place `idx` of the array `array_idx`.
    pub open spec fn array_value(self, array_idx: usize, idx: usize) -> Point2 {
        self.value_2d_at(idx as u64, array_dimension(array_idx))
    }

    /// The samples of the next array that belong to the current sample.
    pub open spec fn array_samples(self, n: i32) -> Seq<Point2> {
        Seq::new(
            n as nat,
            |k: int|
                self.array_value(self.cursor.array_offset, (self.cursor.array_start(n) + k) as usize),
        )
    }

    /// The sampler with its cursor replaced.
    pub open spec fn with_cursor(self, cursor: CursorView) -> SamplerView {
        SamplerView { cursor, ..self }
    }

    /// The sampler after `k` dimensions have been handed out.
    pub open spec fn advanced(self, k: u32) -> SamplerView {
        self.with_cursor(self.cursor.advanced(k))
    }

    /// Whether the algorithm can jump to any sample of its sequence.
    pub open spec fn is_global(self) -> bool {
        self.algorithm is Halton
    }

    /// Whether `r` is the number of samples to ask for in place of `count`: for the
    /// (0, 2)-sequence the least power of two that is not below `count` (the largest power
    /// of two that a count can be, where `count` is beyond it); for the others `count`.
    pub open spec fn rounds_to(self, count: i32, r: i32) -> bool {
        if self.algorithm is ZeroTwoSequence {
            &&& is_power_of_two(r as int)
            &&& r <= 0x4000_0000
            &&& count <= 0x4000_0000 ==> count <= r
            &&& r == 1 || r / 2 < count
        } else {
            r == count
        }
    }

    /// The sampler after it has been told to jump to the sample `n`: only an algorithm
    /// that can jump does.
    pub open spec fn at_sample(self, n: i64) -> SamplerView {
        if self.is_global() {
            self.with_cursor(self.cursor.at_sample(n))
        } else {
            self
        }
    }

    /// The sample values for a camera ray through the pixel `p_raster`: the point on the
    /// film is the pixel moved by the next pair, the time is the number after it, and the
    /// point on the lens is the pair after that.
    pub open spec fn camera_sample(self, p_raster: Point2i) -> CameraSample {
        CameraSample {
            p_film: Point2 {
                x: fx(fx(p_raster.x * ONE) + self.value_2d().x),
                y: fx(fx(p_raster.y * ONE) + self.value_2d().y),
            },
            time: self.after_2d().value_1d(),
            p_lens: self.after_2d().after_1d().value_2d(),
        }
    }

    /// The sampler after it has handed out the sample values for a camera ray.
    pub open spec fn after_camera_sample(self) -> SamplerView {
        self.after_2d().after_1d().after_2d()
    }
}

/// The position of a sampler in its stream of samples.
#[derive(Debug, PartialEq, Eq)]
pub struct SamplerCursor {
    pub samples_per_pixel: i64,
    pub seed: u64,
    pub current_pixel: Point2i,
    pub current_pixel_sample_index: i64,
    pub dimension: u32,
    pub array_sizes: Vec<i32>,
    pub array_offset: usize,
}

impl View for SamplerCursor {
    type V = CursorView;

    open spec fn view(&self) -> CursorView {
        CursorView {
            samples_per_pixel: self.samples_per_pixel,
            seed: self.seed,
            current_pixel: self.current_pixel,
            current_pixel_sample_index: self.current_pixel_sample_index,
            dimension: self.dimension,
            array_sizes: self.array_sizes@,
            array_offset: self.array_offset,
        }
    }
}

impl SamplerCursor {
    /// The cursor before the first pixel, with no array asked for.
    pub open spec fn new_view(samples_per_pixel: i64, seed: u64) -> CursorView {
        CursorView {
            samples_per_pixel,
            seed,
            current_pixel: Point2i { x: 0, y: 0 },
            current_pixel_sample_index: 0,
            dimension: 0,
            array_sizes: Seq::<i32>::empty(),
            array_offset: 0,
        }
    }

    /// A cursor before the first pixel, with no array asked for.
    pub fn new(samples_per_pixel: i64, seed: u64) -> (r: Self)
        ensures
            r@ == Self::new_view(samples_per_pixel, seed),
    {
        SamplerCursor {
            samples_per_pixel,
            seed,
            current_pixel: Point2i { x: 0, y: 0 },
            current_pixel_sample_index: 0,
            dimension: 0,
            array_sizes: Vec::new(),
            array_offset: 0,
        }
    }

    /// A copy of the cursor with another seed.
    pub fn clone_with_seed(&self, seed: u64) -> (r: Self)
        ensures
            r@ == self@.with_seed(seed),
    {
        let mut sizes: Vec<i32> = Vec::new();
        let mut i: usize = 0;
        while i < self.array_sizes.len()
            invariant
                i <= self.array_sizes.len(),
                sizes@ == self.array_sizes@.take(i as int),
            decreases self.array_sizes.len() - i,
        {
            sizes.push(self.array_sizes[i]);
            assert(self.array_sizes@.take(i + 1) =~= self.array_sizes@.take(i as int).push(
                self.array_sizes@[i as int],
            ));
            i = i + 1;
        }
        assert(self.array_sizes@.take(i as int) =~= self.array_sizes@);
        SamplerCursor {
            samples_per_pixel: self.samples_per_pixel,
            seed,
            current_pixel: self.current_pixel,
            current_pixel_sample_index: self.current_pixel_sample_index,
            dimension: self.dimension,
            array_sizes: sizes,
            array_offset: self.array_offset,
        }
    }

    /// The index of the current sample as a natural number.
    pub fn sample_index(&self) -> (r: u64)
        ensures
            r == self@.sample_index(),
    {
        if self.current_pixel_sample_index < 0 {
            0
        } else {
            self.current_pixel_sample_index as u64
        }
    }

    /// Moves to the first sample of the pixel `p`.
    pub fn start_pixel(&mut self, p: Point2i)
        ensures
            final(self)@ == old(self)@.at_pixel(p),
    {
        self.current_pixel = p;
        self.current_pixel_sample_index = 0;
        self.dimension = 0;
        self.array_offset = 0;
    }

    /// Moves to the start of the next sample; says whether it is within the pixel's budget.
    pub fn start_next_sample(&mut self) -> (r: bool)
        ensures
            final(self)@ == old(self)@.at_next_sample(),
            r == (final(self)@.current_pixel_sample_index < final(self)@.samples_per_pixel),
    {
        if self.current_pixel_sample_index < i64::MAX {
            self.current_pixel_sample_index = self.current_pixel_sample_index + 1;
        }
        self.dimension = 0;
        self.array_offset = 0;
        self.current_pixel_sample_index < self.samples_per_pixel
    }

    /// Moves to the start of the sample `sample_num`; says whether it is within the pixel's
    /// budget.
    pub fn set_sample_number(&mut self, sample_num: i64) -> (r: bool)
        ensures
            final(self)@ == old(self)@.at_sample(sample_num),
            r == (sample_num < old(self)@.samples_per_pixel),
    {
        self.current_pixel_sample_index = sample_num;
        self.dimension = 0;
        self.array_offset = 0;
        self.current_pixel_sample_index < self.samples_per_pixel
    }

    /// Hands out `k` dimensions.
    pub fn advance(&mut self, k: u32)
        ensures
            final(self)@ == old(self)@.advanced(k),
    {
        self.dimension = self.dimension.wrapping_add(k);
    }

    /// Asks for an array of `n` samples with every sample of a pixel.
    pub fn request_2d_array(&mut self, n: i32)
        ensures
            final(self)@ == old(self)@.with_array(n),
    {
        self.array_sizes.push(n);
    }

    /// The next array as an array of `n` samples: whether it can be handed out, which
    /// array it is and where the part of the current sample begins.
    pub fn get_2d_array_idxs(&mut self, n: i32) -> (r: (bool, usize, usize))
        ensures
            final(self)@ == old(self)@.after_array(n),
            r.0 == old(self)@.array_available(n),
            r.0 ==> r.1 == old(self)@.array_offset && r.2 == old(self)@.array_start(n),
            !r.0 ==> r.1 == 0 && r.2 == 0,
    {
        if self.array_offset >= self.array_sizes.len() {
            return (false, 0, 0);
        }
        if self.array_sizes[self.array_offset] != n || n < 0 {
            return (false, 0, 0);
        }
        if self.current_pixel_sample_index < 0 || self.current_pixel_sample_index
            >= self.samples_per_pixel {
            return (false, 0, 0);
        }
        proof {
            assert(0 <= (self.current_pixel_sample_index + 1) * n <= 0x8000_0000_0000_0000
                * 0x8000_0000) by (nonlinear_arith)
                requires
                    0 <= self.current_pixel_sample_index < 0x7fff_ffff_ffff_ffff,
                    0 <= n <= 0x7fff_ffff,
            ;
            assert(0 <= self.current_pixel_sample_index * n <= (self.current_pixel_sample_index
                + 1) * n) by (nonlinear_arith)
                requires
                    0 <= self.current_pixel_sample_index,
                    0 <= n,
            ;
        }
        let end: u128 = ((self.current_pixel_sample_index as u128) + 1) * (n as u128);
        if end > usize::MAX as u128 {
            return (false, 0, 0);
        }
        let start: usize = ((self.current_pixel_sample_index as u128) * (n as u128)) as usize;
        let idx: usize = self.array_offset;
        self.array_offset = self.array_offset + 1;
        (true, idx, start)
    }

    /// Replaces the seed.
    pub fn reseed(&mut self, seed: u64)
        ensures
            final(self)@ == old(self)@.with_seed(seed),
    {
        self.seed = seed;
    }
}

/// The dimension in which an array begins.
pub fn first_array_dimension(array_idx: usize) -> (r: u32)
    ensures
        r == array_dimension(array_idx),
{
    ARRAY_DIMENSION.wrapping_add((#[verifier::truncate] (array_idx as u32)).wrapping_mul(2))
}

/// A sampler: one of a closed set of algorithms behind one interface. Everything it hands
/// out is a function of its algorithm, its seed, the pixel, the index of the sample and
/// the calls made so far.
#[derive(Debug, PartialEq, Eq)]
pub enum Sampler {
    Halton(HaltonSampler),
    MLT(MLTSampler),
    Random(RandomSampler),
    Stratified(StratifiedSampler),
    ZeroTwoSequence(ZeroTwoSequenceSampler),
}

impl View for Sampler {
    type V = SamplerView;

    open spec fn view(&self) -> SamplerView {
        match self {
            Sampler::Halton(sampler) => sampler@,
            Sampler::MLT(sampler) => sampler@,
            Sampler::Random(sampler) => sampler@,
            Sampler::Stratified(sampler) => sampler@,
            Sampler::ZeroTwoSequence(sampler) => sampler@,
        }
    }
}

impl Sampler {
    /// A copy of the sampler with another seed: the same algorithm, the same number of
    /// samples in every pixel, the same place in the stream.
    pub fn clone_with_seed(&self, seed: u64) -> (r: Box<Sampler>)
        ensures
            (*r)@ == self@.with_cursor(self@.cursor.with_seed(seed)),
    {
        match self {
            Sampler::Halton(sampler) => Box::new(
                Sampler::Halton(HaltonSampler { cursor: sampler.cursor.clone_with_seed(seed) }),
            ),
            Sampler::MLT(sampler) => Box::new(Sampler::MLT(sampler.clone_with_seed(seed))),
            Sampler::Random(sampler) => Box::new(
                Sampler::Random(RandomSampler { cursor: sampler.cursor.clone_with_seed(seed) }),
            ),
            Sampler::Stratified(sampler) => Box::new(
                Sampler::Stratified(
                    StratifiedSampler {
                        cursor: sampler.cursor.clone_with_seed(seed),
                        x_pixel_samples: sampler.x_pixel_samples,
                        y_pixel_samples: sampler.y_pixel_samples,
                        jitter_samples: sampler.jitter_samples,
                    },
                ),
            ),
            Sampler::ZeroTwoSequence(sampler) => Box::new(
                Sampler::ZeroTwoSequence(
                    ZeroTwoSequenceSampler { cursor: sampler.cursor.clone_with_seed(seed) },
                ),
            ),
        }
    }

    /// Moves to the first sample of the pixel `p`.
    pub fn start_pixel(&mut self, p: Point2i)
        ensures
            final(self)@ == old(self)@.with_cursor(old(self)@.cursor.at_pixel(p)),
    {
        match self {
            Sampler::Halton(sampler) => sampler.cursor.start_pixel(p),
            Sampler::MLT(sampler) => sampler.cursor.start_pixel(p),
            Sampler::Random(sampler) => sampler.cursor.start_pixel(p),
            Sampler::Stratified(sampler) => sampler.cursor.start_pixel(p),
            Sampler::ZeroTwoSequence(sampler) => sampler.cursor.start_pixel(p),
        }
    }

    /// The next number of the current sample, from zero up to, but not including, one.
    pub fn get_1d(&mut self) -> (r: Fixed)
        ensures
            r == old(self)@.value_1d(),
            final(self)@ == old(self)@.after_1d(),
            0 <= r < ONE,
    {
        match self {
            Sampler::Halton(sampler) => sampler.get_1d(),
            Sampler::MLT(sampler) => sampler.get_1d(),
            Sampler::Random(sampler) => sampler.get_1d(),
            Sampler::Stratified(sampler) => sampler.get_1d(),
            Sampler::ZeroTwoSequence(sampler) => sampler.get_1d(),
        }
    }

    /// The next pair of the current sample, each coordinate from zero up to, but not
    /// including, one.
    pub fn get_2d(&mut self) -> (r: Point2)
        ensures
            r == old(self)@.value_2d(),
            final(self)@ == old(self)@.after_2d(),
            0 <= r.x < ONE,
            0 <= r.y < ONE,
    {
        match self {
            Sampler::Halton(sampler) => sampler.get_2d(),
            Sampler::MLT(sampler) => sampler.get_2d(),
            Sampler::Random(sampler) => sampler.get_2d(),
            Sampler::Stratified(sampler) => sampler.get_2d(),
            Sampler::ZeroTwoSequence(sampler) => sampler.get_2d(),
        }
    }

    /// The sample at the place `idx` of the array `array_idx`.
    pub fn get_2d_sample(&self, array_idx: usize, idx: usize) -> (r: Point2)
        ensures
            r == self@.array_value(array_idx, idx),
            0 <= r.x < ONE,
            0 <= r.y < ONE,
    {
        match self {
            Sampler::Halton(sampler) => sampler.get_2d_sample(array_idx, idx),
            Sampler::MLT(sampler) => sampler.get_2d_sample(array_idx, idx),
            Sampler::Random(sampler) => sampler.get_2d_sample(array_idx, idx),
            Sampler::Stratified(sampler) => sampler.get_2d_sample(array_idx, idx),
            Sampler::ZeroTwoSequence(sampler) => sampler.get_2d_sample(array_idx, idx),
        }
    }

    /// The sample values for a camera ray through the pixel `p_raster`, made of the next
    /// pair, the next number and the pair after it.
    pub fn get_camera_sample(&mut self, p_raster: Point2i) -> (cs: CameraSample)
        ensures
            cs == old(self)@.camera_sample(p_raster),
            final(self)@ == old(self)@.after_camera_sample(),
    {
        let film: Point2 = self.get_2d();
        let time: Fixed = self.get_1d();
        let p_lens: Point2 = self.get_2d();
        CameraSample {
            p_film: Point2 {
                x: fixed_add(fixed_from_int(p_raster.x), film.x),
                y: fixed_add(fixed_from_int(p_raster.y), film.y),
            },
            time,
            p_lens,
        }
    }

    /// Asks for an array of `n` samples with every sample of a pixel.
    pub fn request_2d_array(&mut self, n: i32)
        ensures
            final(self)@ == old(self)@.with_cursor(old(self)@.cursor.with_array(n)),
    {
        match self {
            Sampler::Halton(sampler) => sampler.cursor.request_2d_array(n),
            Sampler::MLT(sampler) => sampler.cursor.request_2d_array(n),
            Sampler::Random(sampler) => sampler.cursor.request_2d_array(n),
            Sampler::Stratified(sampler) => sampler.cursor.request_2d_array(n),
            Sampler::ZeroTwoSequence(sampler) => sampler.cursor.request_2d_array(n),
        }
    }

    /// The number of samples to ask for in place of `count`.
    pub fn round_count(&self, count: i32) -> (r: i32)
        ensures
            self@.rounds_to(count, r),
    {
        match self {
            Sampler::Halton(sampler) => sampler.round_count(count),
            Sampler::MLT(sampler) => sampler.round_count(count),
            Sampler::Random(sampler) => sampler.round_count(count),
            Sampler::Stratified(sampler) => sampler.round_count(count),
            Sampler::ZeroTwoSequence(sampler) => sampler.round_count(count),
        }
    }

    /// The samples of the next array that belong to the current sample, or nothing where
    /// the array cannot be handed out as an array of `n` samples.
    pub fn get_2d_array(&mut self, n: i32) -> (r: Option<Vec<Point2>>)
        ensures
            final(self)@ == old(self)@.with_cursor(old(self)@.cursor.after_array(n)),
            match r {
                Some(v) => old(self)@.cursor.array_available(n) && v@ == old(self)@.array_samples(n),
                None => !old(self)@.cursor.array_available(n),
            },
    {
        let ghost before = self@;
        let (available, array_idx, start) = self.get_2d_array_idxs(n);
        if !available {
            return None;
        }
        proof {
            assert((before.cursor.current_pixel_sample_index + 1) * n
                == before.cursor.current_pixel_sample_index * n + n) by (nonlinear_arith);
        }
        let mut v: Vec<Point2> = Vec::new();
        let mut k: usize = 0;
        while k < n as usize
            invariant
                0 <= n,
                k <= n,
                start + n <= usize::MAX,
                v@.len() == k,
                forall|j: int|
                    0 <= j < k ==> v@[j] == self@.array_value(array_idx, (start + j) as usize),
            decreases n - k,
        {
            v.push(self.get_2d_sample(array_idx, start + k));
            k = k + 1;
        }
        assert(v@ =~= before.array_samples(n));
        Some(v)
    }

    /// The next array as an array of `n` samples: whether it can be handed out, which
    /// array it is and where the part of the current sample begins.
    pub fn get_2d_array_idxs(&mut self, n: i32) -> (r: (bool, usize, usize))
        ensures
            final(self)@ == old(self)@.with_cursor(old(self)@.cursor.after_array(n)),
            r.0 == old(self)@.cursor.array_available(n),
            r.0 ==> r.1 == old(self)@.cursor.array_offset && r.2 == old(self)@.cursor.array_start(n),
            !r.0 ==> r.1 == 0 && r.2 == 0,
    {
        match self {
            Sampler::Halton(sampler) => sampler.cursor.get_2d_array_idxs(n),
            Sampler::MLT(sampler) => sampler.cursor.get_2d_array_idxs(n),
            Sampler::Random(sampler) => sampler.cursor.get_2d_array_idxs(n),
            Sampler::Stratified(sampler) => sampler.cursor.get_2d_array_idxs(n),
            Sampler::ZeroTwoSequence(sampler) => sampler.cursor.get_2d_array_idxs(n),
        }
    }

    /// Moves to the start of the next sample of the pixel; says whether that sample is
    /// within the pixel's budget.
    pub fn start_next_sample(&mut self) -> (r: bool)
        ensures
            final(self)@ == old(self)@.with_cursor(old(self)@.cursor.at_next_sample()),
            r == (final(self)@.cursor.current_pixel_sample_index
                < final(self)@.cursor.samples_per_pixel),
    {
        match self {
            Sampler::Halton(sampler) => sampler.cursor.start_next_sample(),
            Sampler::MLT(sampler) => sampler.cursor.start_next_sample(),
            Sampler::Random(sampler) => sampler.cursor.start_next_sample(),
            Sampler::Stratified(sampler) => sampler.cursor.start_next_sample(),
            Sampler::ZeroTwoSequence(sampler) => sampler.cursor.start_next_sample(),
        }
    }

    /// Replaces the seed.
    pub fn reseed(&mut self, seed: u64)
        ensures
            final(self)@ == old(self)@.with_cursor(old(self)@.cursor.with_seed(seed)),
    {
        match self {
            Sampler::Halton(sampler) => sampler.cursor.reseed(seed),
            Sampler::MLT(sampler) => sampler.cursor.reseed(seed),
            Sampler::Random(sampler) => sampler.cursor.reseed(seed),
            Sampler::Stratified(sampler) => sampler.cursor.reseed(seed),
            Sampler::ZeroTwoSequence(sampler) => sampler.cursor.reseed(seed),
        }
    }

    pub fn get_current_pixel(&self) -> (r: Point2i)
        ensures
            r == self@.cursor.current_pixel,
    {
        match self {
            Sampler::Halton(sampler) => sampler.cursor.current_pixel,
            Sampler::MLT(sampler) => sampler.cursor.current_pixel,
            Sampler::Random(sampler) => sampler.cursor.current_pixel,
            Sampler::Stratified(sampler) => sampler.cursor.current_pixel,
            Sampler::ZeroTwoSequence(sampler) => sampler.cursor.current_pixel,
        }
    }

    pub fn get_current_sample_number(&self) -> (r: i64)
        ensures
            r == self@.cursor.current_pixel_sample_index,
    {
        match self {
            Sampler::Halton(sampler) => sampler.cursor.current_pixel_sample_index,
            Sampler::MLT(sampler) => sampler.cursor.current_pixel_sample_index,
            Sampler::Random(sampler) => sampler.cursor.current_pixel_sample_index,
            Sampler::Stratified(sampler) => sampler.cursor.current_pixel_sample_index,
            Sampler::ZeroTwoSequence(sampler) => sampler.cursor.current_pixel_sample_index,
        }
    }

    pub fn get_samples_per_pixel(&self) -> (r: i64)
        ensures
            r == self@.cursor.samples_per_pixel,
    {
        match self {
            Sampler::Halton(sampler) => sampler.cursor.samples_per_pixel,
            Sampler::MLT(sampler) => sampler.cursor.samples_per_pixel,
            Sampler::Random(sampler) => sampler.cursor.samples_per_pixel,
            Sampler::Stratified(sampler) => sampler.cursor.samples_per_pixel,
            Sampler::ZeroTwoSequence(sampler) => sampler.cursor.samples_per_pixel,
        }
    }

    /// Jumps to the start of the sample `sample_num` of the pixel, where the algorithm can
    /// jump; says whether it did and the sample is within the pixel's budget.
    pub fn set_sample_number(&mut self, sample_num: i64) -> (r: bool)
        ensures
            final(self)@ == old(self)@.at_sample(sample_num),
            r == (old(self)@.is_global() && sample_num < old(self)@.cursor.samples_per_pixel),
    {
        match self {
            Sampler::Halton(sampler) => sampler.cursor.set_sample_number(sample_num),
            _ => false,
        }
    }
}

/// A call on a sampler. Each call stands for the method of `Sampler` of the same name;
/// `after` and `output` say of the call what the method's contract says of the method.
pub enum SamplerCall {
    StartPixel(Point2i),
    Get1D,
    Get2D,
    Get2DSample(usize, usize),
    GetCameraSample(Point2i),
    Request2DArray(i32),
    Get2DArray(i32),
    Get2DArrayIdxs(i32),
    StartNextSample,
    Reseed(u64),
    SetSampleNumber(i64),
}

/// What a call on a sampler hands back.
pub enum SamplerOutput {
    Nothing,
    Number(Fixed),
    Pair(Point2),
    Camera(CameraSample),
    Samples(Option<Seq<Point2>>),
    Place(bool, usize, usize),
    Flag(bool),
}

impl SamplerView {
    /// The sampler with another seed.
    pub open spec fn reseeded(self, seed: u64) -> SamplerView {
        self.with_cursor(self.cursor.with_seed(seed))
    }

    /// The sampler after a call.
    pub open spec fn after(self, call: SamplerCall) -> SamplerView {
        match call {
            SamplerCall::StartPixel(p) => self.with_cursor(self.cursor.at_pixel(p)),
            SamplerCall::Get1D => self.after_1d(),
            SamplerCall::Get2D => self.after_2d(),
            SamplerCall::Get2DSample(_, _) => self,
            SamplerCall::GetCameraSample(_) => self.after_camera_sample(),
            SamplerCall::Request2DArray(n) => self.with_cursor(self.cursor.with_array(n)),
            SamplerCall::Get2DArray(n) => self.with_cursor(self.cursor.after_array(n)),
            SamplerCall::Get2DArrayIdxs(n) => self.with_cursor(self.cursor.after_array(n)),
            SamplerCall::StartNextSample => self.with_cursor(self.cursor.at_next_sample()),
            SamplerCall::Reseed(seed) => self.reseeded(seed),
            SamplerCall::SetSampleNumber(n) => self.at_sample(n),
        }
    }

    /// What a call hands back.
    pub open spec fn output(self, call: SamplerCall) -> SamplerOutput {
        match call {
            SamplerCall::StartPixel(_) => SamplerOutput::Nothing,
            SamplerCall::Get1D => SamplerOutput::Number(self.value_1d()),
            SamplerCall::Get2D => SamplerOutput::Pair(self.value_2d()),
            SamplerCall::Get2DSample(array_idx, idx) => SamplerOutput::Pair(
                self.array_value(array_idx, idx),
            ),
            SamplerCall::GetCameraSample(p) => SamplerOutput::Camera(self.camera_sample(p)),
            SamplerCall::Request2DArray(_) => SamplerOutput::Nothing,
            SamplerCall::Get2DArray(n) => SamplerOutput::Samples(
                if self.cursor.array_available(n) {
                    Some(self.array_samples(n))
                } else {
                    None
                },
            ),
            SamplerCall::Get2DArrayIdxs(n) => if self.cursor.array_available(n) {
                SamplerOutput::Place(true, self.cursor.array_offset, self.cursor.array_start(n))
            } else {
                SamplerOutput::Place(false, 0, 0)
            },
            SamplerCall::StartNextSample => SamplerOutput::Flag(
                self.cursor.at_next_sample().current_pixel_sample_index
                    < self.cursor.samples_per_pixel,
            ),
            SamplerCall::Reseed(_) => SamplerOutput::Nothing,
            SamplerCall::SetSampleNumber(n) => SamplerOutput::Flag(
                self.is_global() && n < self.cursor.samples_per_pixel,
            ),
        }
    }

    /// What a sequence of calls hands back, call by call.
    pub open spec fn outputs(self, calls: Seq<SamplerCall>) -> Seq<SamplerOutput>
        decreases calls.len(),
    {
        if calls.len() == 0 {
            Seq::<SamplerOutput>::empty()
        } else {
            seq![self.output(calls[0])] + self.after(calls[0]).outputs(calls.drop_first())
        }
    }

    /// The sampler after a sequence of calls.
    pub open spec fn after_all(self, calls: Seq<SamplerCall>) -> SamplerView
        decreases calls.len(),
    {
        if calls.len() == 0 {
            self
        } else {
            self.after(calls[0]).after_all(calls.drop_first())
        }
    }
}

/// Reproducibility: two samplers made from one parent by cloning it with one seed hand
/// back the same values under the same sequence of calls, and are alike afterwards.
pub proof fn lemma_clones_agree(
    parent: SamplerView,
    seed: u64,
    first: SamplerView,
    second: SamplerView,
    calls: Seq<SamplerCall>,
)
    requires
        first == parent.reseeded(seed),
        second == parent.reseeded(seed),
    ensures
        first.outputs(calls) == second.outputs(calls),
        first.after_all(calls) == second.after_all(calls),
{
}

/// Every number that a sampler hands out lies in the unit interval, zero included and one
/// not.
pub proof fn lemma_draws_in_unit_interval(s: SamplerView)
    ensures
        0 <= s.value_1d() < ONE,
        0 <= s.value_2d().x < ONE,
        0 <= s.value_2d().y < ONE,
{
    lemma_values_in_unit_interval(s, s.cursor.sample_index(), s.cursor.dimension);
    match s.algorithm {
        Algorithm::Mlt(chain) => {
            lemma_chain_value_in_unit_interval(chain, s.cursor.seed);
            lemma_chain_value_in_unit_interval(chain.drawn(s.cursor.seed).1, s.cursor.seed);
        },
        _ => {},
    }
}

/// Every number that an algorithm places, in a sample or in an array, lies in the unit
/// interval, zero included and one not.
pub proof fn lemma_values_in_unit_interval(s: SamplerView, index: u64, dim: u32)
    ensures
        0 <= s.value_1d_at(index, dim) < ONE,
        0 <= s.value_2d_at(index, dim).x < ONE,
        0 <= s.value_2d_at(index, dim).y < ONE,
{
    lemma_halton_in_unit_interval(s.cursor.current_pixel, index, dim);
    lemma_halton_in_unit_interval(s.cursor.current_pixel, index, dim.wrapping_add(1));
    lemma_random_in_unit_interval(s.cursor.seed, s.cursor.current_pixel, index, dim);
    lemma_random_in_unit_interval(s.cursor.seed, s.cursor.current_pixel, index, dim.wrapping_add(1));
    lemma_zero_two_in_unit_interval(s.cursor.seed, s.cursor.current_pixel, index, dim);
    match s.algorithm {
        Algorithm::Stratified { x_pixel_samples, y_pixel_samples, jitter_samples } => {
            lemma_stratified_in_unit_interval(
                s.cursor.samples_per_pixel,
                x_pixel_samples,
                y_pixel_samples,
                jitter_samples,
                s.cursor.seed,
                s.cursor.current_pixel,
                index,
                dim,
            );
        },
        _ => {},
    }
}

} // verus!
