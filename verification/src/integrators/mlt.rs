//! The sampler for Markov-chain light transport: a chain of sample values that are mutated
//! from iteration to iteration.

use crate::fixed::{floor_sqrt, int_sqrt, lemma_product_bound, quot, wide_quot, Fixed, ONE};
use crate::geometry::Point2;
use crate::rng::{lemma_unit_sample_range, mix, mix_bits, to_unit, unit_sample};
use crate::sampler::{first_array_dimension, Algorithm, SamplerCursor, SamplerView};
use crate::samplers::random::sample_random_2d;
use vstd::prelude::*;

verus! {

/// The largest number of sample values that a chain remembers. A value further along is
/// drawn afresh every time.
pub const MAX_CHAIN_LENGTH: usize = 0x10_0000;

/// The purpose of a random word: a value drawn afresh.
pub const DRAW_FRESH: u32 = 0;

/// The purpose of a random word: the share of the step width by which a small step moves.
pub const DRAW_STEP: u32 = 1;

/// The purpose of a random word: whether an iteration is a large step.
pub const DRAW_KIND: u32 = 2;

/// One sample value of a chain, with what is needed to take its last mutation back.
#[derive(Clone, Copy, Debug, PartialEq, Eq, Structural)]
pub struct PrimarySample {
    pub value: Fixed,
    /// The iteration in which the value was last changed.
    pub last_modification_iteration: i64,
    pub value_backup: Fixed,
    pub modify_backup: i64,
}

impl PrimarySample {
    /// A sample value that has never been drawn.
    pub open spec fn initial() -> PrimarySample {
        PrimarySample { value: 0, last_modification_iteration: 0, value_backup: 0, modify_backup: 0 }
    }

    /// The sample with its value put aside.
    pub open spec fn backed_up(self) -> PrimarySample {
        PrimarySample {
            value_backup: self.value,
            modify_backup: self.last_modification_iteration,
            ..self
        }
    }

    /// The sample with the value that was put aside.
    pub open spec fn restored(self) -> PrimarySample {
        PrimarySample {
            value: self.value_backup,
            last_modification_iteration: self.modify_backup,
            ..self
        }
    }

    /// Puts the value aside.
    pub fn backup(&mut self)
        ensures
            *final(self) == old(self).backed_up(),
    {
        self.value_backup = self.value;
        self.modify_backup = self.last_modification_iteration;
    }

    /// Takes the value back that was put aside.
    pub fn restore(&mut self)
        ensures
            *final(self) == old(self).restored(),
    {
        self.value = self.value_backup;
        self.last_modification_iteration = self.modify_backup;
    }
}

/// The word from which a chain makes a random number: it depends on the seed, the
/// iteration, the place in the chain and the purpose, and on nothing else.
pub open spec fn chain_key(seed: u64, iteration: i64, index: u64, purpose: u32) -> u64 {
    mix_bits(mix_bits(mix_bits(seed ^ (iteration as u64)) ^ index) ^ (purpose as u64))
}

/// The uniform random number of a place in the chain in an iteration, for a purpose.
pub open spec fn chain_uniform(seed: u64, iteration: i64, index: u64, purpose: u32) -> Fixed {
    unit_sample(chain_key(seed, iteration, index, purpose))
}

/// How far a small step may move a value after `n_small` iterations in which the value
/// was not looked at: the width `sigma` of one step times the root of their number, but
/// no more than one.
pub open spec fn step_width(sigma: Fixed, n_small: i64) -> int {
    if sigma <= 0 || n_small <= 0 {
        0
    } else if sigma * floor_sqrt(n_small * 0x1_0000_0000) / (ONE as int) > ONE {
        ONE as int
    } else {
        sigma * floor_sqrt(n_small * 0x1_0000_0000) / (ONE as int)
    }
}

/// The value `value` moved by a small step: by the share `2 u - 1` of the step width, and
/// wrapped into the unit interval.
pub open spec fn perturbed(value: Fixed, width: int, u: Fixed) -> Fixed {
    ((value + quot((2 * u - ONE) * width, ONE as int)) % (ONE as int)) as Fixed
}

/// The state of a chain of mutations, as a mathematical value.
pub struct ChainView {
    pub sigma: Fixed,
    pub large_step_probability: Fixed,
    pub stream_count: i32,
    pub x: Seq<PrimarySample>,
    pub current_iteration: i64,
    pub large_step: bool,
    pub last_large_step_iteration: i64,
    pub stream_index: i32,
    pub sample_index: i32,
}

impl ChainView {
    /// The place in the chain of the next value: the streams take turns.
    pub open spec fn next_index(self) -> int {
        self.stream_index + self.stream_count * self.sample_index
    }

    /// Whether the chain remembers the next value.
    pub open spec fn remembers_next(self) -> bool {
        0 <= self.next_index() < MAX_CHAIN_LENGTH
    }

    /// The values of the chain, grown so that the place `index` exists.
    pub open spec fn grown(self, index: int) -> Seq<PrimarySample> {
        if index < self.x.len() {
            self.x
        } else {
            self.x + Seq::new((index + 1 - self.x.len()) as nat, |i: int| PrimarySample::initial())
        }
    }

    /// The sample brought up to the last large step, where it has missed it.
    pub open spec fn caught_up(self, xi: PrimarySample, seed: u64, index: int) -> PrimarySample {
        if xi.last_modification_iteration < self.last_large_step_iteration {
            PrimarySample {
                value: chain_uniform(seed, self.last_large_step_iteration, index as u64, DRAW_FRESH),
                last_modification_iteration: self.last_large_step_iteration,
                ..xi
            }
        } else {
            xi
        }
    }

    /// The sample after the mutation of the current iteration: a fresh value in a large
    /// step, else a small step as wide as the iterations since its last change ask for.
    /// The value before the mutation is put aside.
    pub open spec fn mutated(self, xi: PrimarySample, seed: u64, index: int) -> PrimarySample {
        let ready = self.caught_up(xi, seed, index).backed_up();
        PrimarySample {
            value: if self.large_step {
                chain_uniform(seed, self.current_iteration, index as u64, DRAW_FRESH)
            } else {
                perturbed(
                    ready.value,
                    step_width(
                        self.sigma,
                        self.current_iteration.wrapping_sub(ready.last_modification_iteration),
                    ),
                    chain_uniform(seed, self.current_iteration, index as u64, DRAW_STEP),
                )
            },
            last_modification_iteration: self.current_iteration,
            ..ready
        }
    }

    /// The chain after its next value has been handed out, and the value.
    pub open spec fn drawn(self, seed: u64) -> (Fixed, ChainView) {
        let index = self.next_index();
        let stepped = ChainView {
            sample_index: if self.sample_index < i32::MAX {
                (self.sample_index + 1) as i32
            } else {
                self.sample_index
            },
            ..self
        };
        if self.remembers_next() {
            let xi = self.mutated(self.grown(index)[index], seed, index);
            (xi.value, ChainView { x: self.grown(index).update(index, xi), ..stepped })
        } else {
            (chain_uniform(seed, self.current_iteration, index as u64, DRAW_FRESH), stepped)
        }
    }

    /// The chain at the start of the next iteration: it is a large step with the chain's
    /// probability of large steps.
    pub open spec fn at_next_iteration(self, seed: u64) -> ChainView {
        let next = if self.current_iteration < i64::MAX {
            (self.current_iteration + 1) as i64
        } else {
            self.current_iteration
        };
        ChainView {
            current_iteration: next,
            large_step: chain_uniform(seed, next, 0, DRAW_KIND) < self.large_step_probability,
            ..self
        }
    }

    /// The chain after the mutation of the current iteration has been accepted.
    pub open spec fn accepted(self) -> ChainView {
        if self.large_step {
            ChainView { last_large_step_iteration: self.current_iteration, ..self }
        } else {
            self
        }
    }

    /// The chain after the mutation of the current iteration has been rejected: every
    /// value that the iteration changed is taken back, and so is the iteration.
    pub open spec fn rejected(self) -> ChainView {
        ChainView {
            x: Seq::new(
                self.x.len(),
                |i: int|
                    if self.x[i].last_modification_iteration == self.current_iteration {
                        self.x[i].restored()
                    } else {
                        self.x[i]
                    },
            ),
            current_iteration: if self.current_iteration > i64::MIN {
                (self.current_iteration - 1) as i64
            } else {
                self.current_iteration
            },
            ..self
        }
    }

    /// The chain at the start of a stream.
    pub open spec fn at_stream(self, index: i32) -> ChainView {
        ChainView { stream_index: index, sample_index: 0, ..self }
    }
}

/// The word from which a chain makes a random number.
pub fn make_chain_key(seed: u64, iteration: i64, index: u64, purpose: u32) -> (r: u64)
    ensures
        r == chain_key(seed, iteration, index, purpose),
{
    mix(mix(mix(seed ^ (#[verifier::truncate] (iteration as u64))) ^ index) ^ (purpose as u64))
}

/// The uniform random number of a place in the chain in an iteration, for a purpose.
pub fn draw_chain_uniform(seed: u64, iteration: i64, index: u64, purpose: u32) -> (r: Fixed)
    ensures
        r == chain_uniform(seed, iteration, index, purpose),
        0 <= r < ONE,
{
    to_unit(make_chain_key(seed, iteration, index, purpose))
}

/// How far a small step may move a value.
pub fn small_step_width(sigma: Fixed, n_small: i64) -> (w: i64)
    ensures
        w == step_width(sigma, n_small),
        0 <= w <= ONE,
{
    if sigma <= 0 || n_small <= 0 {
        return 0;
    }
    let root: u128 = int_sqrt((n_small as u128) * 0x1_0000_0000);
    proof {
        lemma_product_bound(sigma as int, root as int, 0x8000_0000, 0x1_0000_0000_0000_0000);
        assert(sigma * root >= 0) by (nonlinear_arith)
            requires
                sigma > 0,
                root >= 0,
        ;
    }
    let wide: u128 = (sigma as u128) * root / 65536;
    if wide > 65536 {
        65536
    } else {
        wide as i64
    }
}

/// A value moved by a small step and wrapped into the unit interval.
pub fn perturb(value: Fixed, width: i64, u: Fixed) -> (r: Fixed)
    requires
        0 <= width <= ONE,
        0 <= u < ONE,
    ensures
        r == perturbed(value, width as int, u),
        0 <= r < ONE,
{
    proof {
        lemma_product_bound(2 * u - ONE, width as int, 0x1_0000, 0x1_0000);
    }
    let share: i128 = (2 * (u as i128) - 65536) * (width as i128);
    let delta: i128 = wide_quot(share, 65536);
    let moved: i128 = value as i128 + delta;
    if moved >= 0 {
        (moved % 65536) as i32
    } else {
        let m: i128 = (-moved) % 65536;
        if m == 0 {
            0
        } else {
            (65536 - m) as i32
        }
    }
}

/// A sampler for Markov-chain light transport: it remembers the sample values it has
/// handed out and mutates them from iteration to iteration, by small steps or by large
/// steps that draw them afresh; a mutation can be accepted or taken back.
#[derive(Debug, PartialEq, Eq)]
pub struct MLTSampler {
    pub cursor: SamplerCursor,
    /// The width of one small step.
    pub sigma: Fixed,
    pub large_step_probability: Fixed,
    /// The number of streams that share the chain.
    pub stream_count: i32,
    pub x: Vec<PrimarySample>,
    pub current_iteration: i64,
    pub large_step: bool,
    pub last_large_step_iteration: i64,
    pub stream_index: i32,
    pub sample_index: i32,
}

impl MLTSampler {
    /// The state of the chain.
    pub open spec fn chain(&self) -> ChainView {
        ChainView {
            sigma: self.sigma,
            large_step_probability: self.large_step_probability,
            stream_count: self.stream_count,
            x: self.x@,
            current_iteration: self.current_iteration,
            large_step: self.large_step,
            last_large_step_iteration: self.last_large_step_iteration,
            stream_index: self.stream_index,
            sample_index: self.sample_index,
        }
    }
}

impl View for MLTSampler {
    type V = SamplerView;

    open spec fn view(&self) -> SamplerView {
        SamplerView { algorithm: Algorithm::Mlt(self.chain()), cursor: self.cursor@ }
    }
}

impl MLTSampler {
    /// A sampler before its first iteration, which will be a large step: it makes
    /// `mutations_per_pixel` mutations for every pixel.
    pub fn new(
        mutations_per_pixel: i64,
        seed: u64,
        sigma: Fixed,
        large_step_probability: Fixed,
        stream_count: i32,
    ) -> (r: Self)
        ensures
            r.cursor@ == SamplerCursor::new_view(mutations_per_pixel, seed),
            r.chain() == (ChainView {
                sigma,
                large_step_probability,
                stream_count,
                x: Seq::<PrimarySample>::empty(),
                current_iteration: 0,
                large_step: true,
                last_large_step_iteration: 0,
                stream_index: 0,
                sample_index: 0,
            }),
    {
        MLTSampler {
            cursor: SamplerCursor::new(mutations_per_pixel, seed),
            sigma,
            large_step_probability,
            stream_count,
            x: Vec::new(),
            current_iteration: 0,
            large_step: true,
            last_large_step_iteration: 0,
            stream_index: 0,
            sample_index: 0,
        }
    }

    /// A copy of the sampler with another seed.
    pub fn clone_with_seed(&self, seed: u64) -> (r: Self)
        ensures
            r.cursor@ == self.cursor@.with_seed(seed),
            r.chain() == self.chain(),
    {
        let mut x: Vec<PrimarySample> = Vec::new();
        let mut i: usize = 0;
        while i < self.x.len()
            invariant
                i <= self.x.len(),
                x@ == self.x@.take(i as int),
            decreases self.x.len() - i,
        {
            x.push(self.x[i]);
            assert(self.x@.take(i + 1) =~= self.x@.take(i as int).push(self.x@[i as int]));
            i = i + 1;
        }
        assert(self.x@.take(i as int) =~= self.x@);
        MLTSampler {
            cursor: self.cursor.clone_with_seed(seed),
            sigma: self.sigma,
            large_step_probability: self.large_step_probability,
            stream_count: self.stream_count,
            x,
            current_iteration: self.current_iteration,
            large_step: self.large_step,
            last_large_step_iteration: self.last_large_step_iteration,
            stream_index: self.stream_index,
            sample_index: self.sample_index,
        }
    }

    /// Starts the next iteration.
    pub fn start_iteration(&mut self)
        ensures
            final(self).chain() == old(self).chain().at_next_iteration(old(self).cursor@.seed),
            final(self).cursor == old(self).cursor,
    {
        if self.current_iteration < i64::MAX {
            self.current_iteration = self.current_iteration + 1;
        }
        self.large_step = draw_chain_uniform(self.cursor.seed, self.current_iteration, 0, DRAW_KIND)
            < self.large_step_probability;
    }

    /// Accepts the mutation of the current iteration.
    pub fn accept(&mut self)
        ensures
            final(self).chain() == old(self).chain().accepted(),
            final(self).cursor == old(self).cursor,
    {
        if self.large_step {
            self.last_large_step_iteration = self.current_iteration;
        }
    }

    /// Takes the mutation of the current iteration back.
    pub fn reject(&mut self)
        ensures
            final(self).chain() == old(self).chain().rejected(),
            final(self).cursor == old(self).cursor,
    {
        let ghost before = self.chain();
        let mut i: usize = 0;
        while i < self.x.len()
            invariant
                i <= self.x.len(),
                self.x@.len() == before.x.len(),
                self.chain() == (ChainView { x: self.x@, ..before }),
                self.cursor == old(self).cursor,
                forall|j: int| 0 <= j < i ==> self.x@[j] == before.rejected().x[j],
                forall|j: int| i <= j < self.x@.len() ==> self.x@[j] == before.x[j],
            decreases self.x.len() - i,
        {
            if self.x[i].last_modification_iteration == self.current_iteration {
                let mut xi: PrimarySample = self.x[i];
                xi.restore();
                self.x.set(i, xi);
            }
            i = i + 1;
        }
        assert(self.x@ =~= before.rejected().x);
        if self.current_iteration > i64::MIN {
            self.current_iteration = self.current_iteration - 1;
        }
    }

    /// Moves to the start of a stream.
    pub fn start_stream(&mut self, index: i32)
        ensures
            final(self).chain() == old(self).chain().at_stream(index),
            final(self).cursor == old(self).cursor,
    {
        self.stream_index = index;
        self.sample_index = 0;
    }

    /// The place in the chain of the next value.
    pub fn get_next_index(&self) -> (r: i64)
        ensures
            r == self.chain().next_index(),
    {
        proof {
            lemma_product_bound(
                self.stream_count as int,
                self.sample_index as int,
                0x8000_0000,
                0x8000_0000,
            );
        }
        (self.stream_index as i64) + (self.stream_count as i64) * (self.sample_index as i64)
    }

    /// Grows the chain so that the place `index` exists.
    fn grow(&mut self, index: usize)
        requires
            index < MAX_CHAIN_LENGTH,
        ensures
            final(self).x@ == old(self).chain().grown(index as int),
            final(self).chain() == (ChainView { x: final(self).x@, ..old(self).chain() }),
            final(self).cursor == old(self).cursor,
            index < final(self).x@.len(),
    {
        let ghost before = self.chain();
        while self.x.len() <= index
            invariant
                index < MAX_CHAIN_LENGTH,
                self.x@.len() == before.x.len() || self.x@.len() <= index + 1,
                self.x@.len() >= before.x.len(),
                self.chain() == (ChainView { x: self.x@, ..before }),
                self.cursor == old(self).cursor,
                forall|j: int| 0 <= j < before.x.len() ==> self.x@[j] == before.x[j],
                forall|j: int|
                    before.x.len() <= j < self.x@.len() ==> self.x@[j] == PrimarySample::initial(),
            decreases index + 1 - self.x.len(),
        {
            self.x.push(
                PrimarySample {
                    value: 0,
                    last_modification_iteration: 0,
                    value_backup: 0,
                    modify_backup: 0,
                },
            );
        }
        assert(self.x@ =~= before.grown(index as int));
    }

    /// The sample at a place of the chain after the mutation of the current iteration.
    fn mutate(&self, sample: PrimarySample, index: usize) -> (r: PrimarySample)
        ensures
            r == self.chain().mutated(sample, self.cursor@.seed, index as int),
            0 <= r.value < ONE,
    {
        let mut xi: PrimarySample = sample;
        // a large step that the value has missed is made up for
        if xi.last_modification_iteration < self.last_large_step_iteration {
            xi.value = draw_chain_uniform(
                self.cursor.seed,
                self.last_large_step_iteration,
                index as u64,
                DRAW_FRESH,
            );
            xi.last_modification_iteration = self.last_large_step_iteration;
        }
        xi.backup();
        if self.large_step {
            xi.value = draw_chain_uniform(
                self.cursor.seed,
                self.current_iteration,
                index as u64,
                DRAW_FRESH,
            );
        } else {
            // the small steps of the iterations that did not look at the value, all at once
            let n_small: i64 = self.current_iteration.wrapping_sub(xi.last_modification_iteration);
            let u: Fixed = draw_chain_uniform(
                self.cursor.seed,
                self.current_iteration,
                index as u64,
                DRAW_STEP,
            );
            xi.value = perturb(xi.value, small_step_width(self.sigma, n_small), u);
        }
        xi.last_modification_iteration = self.current_iteration;
        xi
    }

    /// Brings the value at a place of the chain up to the current iteration.
    fn ensure_ready(&mut self, index: usize)
        requires
            index < old(self).x@.len(),
        ensures
            final(self).x@ == old(self).x@.update(
                index as int,
                old(self).chain().mutated(
                    old(self).x@[index as int],
                    old(self).cursor@.seed,
                    index as int,
                ),
            ),
            final(self).chain() == (ChainView { x: final(self).x@, ..old(self).chain() }),
            final(self).cursor == old(self).cursor,
            0 <= final(self).x@[index as int].value < ONE,
    {
        let xi: PrimarySample = self.mutate(self.x[index], index);
        self.x.set(index, xi);
    }

    /// The next value of the chain.
    pub fn get_1d(&mut self) -> (r: Fixed)
        ensures
            r == old(self)@.value_1d(),
            final(self)@ == old(self)@.after_1d(),
            0 <= r < ONE,
    {
        let index: i64 = self.get_next_index();
        if self.sample_index < i32::MAX {
            self.sample_index = self.sample_index + 1;
        }
        if 0 <= index && index < MAX_CHAIN_LENGTH as i64 {
            self.grow(index as usize);
            self.ensure_ready(index as usize);
            self.x[index as usize].value
        } else {
            draw_chain_uniform(
                self.cursor.seed,
                self.current_iteration,
                #[verifier::truncate]
                (index as u64),
                DRAW_FRESH,
            )
        }
    }

    /// The next two values of the chain.
    pub fn get_2d(&mut self) -> (r: Point2)
        ensures
            r == old(self)@.value_2d(),
            final(self)@ == old(self)@.after_2d(),
            0 <= r.x < ONE,
            0 <= r.y < ONE,
    {
        let x: Fixed = self.get_1d();
        let y: Fixed = self.get_1d();
        Point2 { x, y }
    }

    /// The sample at the place `idx` of the array `array_idx`: arrays are no part of the
    /// chain, their samples are uniform random numbers.
    pub fn get_2d_sample(&self, array_idx: usize, idx: usize) -> (r: Point2)
        ensures
            r == self@.array_value(array_idx, idx),
            0 <= r.x < ONE,
            0 <= r.y < ONE,
    {
        sample_random_2d(
            self.cursor.seed,
            self.cursor.current_pixel,
            idx as u64,
            first_array_dimension(array_idx),
        )
    }

    /// The number of samples to ask for in place of `count`: any count will do.
    pub fn round_count(&self, count: i32) -> (r: i32)
        ensures
            r == count,
    {
        count
    }
}

/// Every value that a chain hands out lies in the unit interval, zero included and one
/// not, whatever the chain remembers.
pub proof fn lemma_chain_value_in_unit_interval(chain: ChainView, seed: u64)
    ensures
        0 <= chain.drawn(seed).0 < ONE,
{
    let index = chain.next_index();
    lemma_unit_sample_range(chain_key(seed, chain.current_iteration, index as u64, DRAW_FRESH));
}

/// Taking a mutation back undoes it: a value that was mutated in the current iteration is,
/// after the rejection, what it was before the mutation, up to a large step that it had
/// missed.
pub proof fn lemma_reject_undoes_mutation(chain: ChainView, seed: u64, index: int)
    requires
        0 <= index < chain.x.len(),
        chain.caught_up(chain.x[index], seed, index).last_modification_iteration
            != chain.current_iteration,
    ensures
        ({
            let mutated = ChainView {
                x: chain.x.update(index, chain.mutated(chain.x[index], seed, index)),
                ..chain
            };
            let before = chain.caught_up(chain.x[index], seed, index);
            &&& mutated.rejected().x[index].value == before.value
            &&& mutated.rejected().x[index].last_modification_iteration
                == before.last_modification_iteration
        }),
{
}

} // verus!
