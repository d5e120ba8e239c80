//! Path tracing as a state machine. A path asks for the nearest hit of its ray, for the
//! direct lighting at the hit and for a direction to go on in; the answers come in as
//! events, and every event takes the path to its next state, until it ends.

use crate::fixed::{
    clamp, fixed_mul, fixed_sub, fx, lemma_product_bound, lemma_product_grows,
    lemma_product_sign, lemma_quot_below, lemma_quot_sign, lemma_quotient_brackets, magnitude,
    quot, saturate, wide_mul, wide_quot, Fixed, FIXED_MAX, ONE,
};
use crate::geometry::{vec3_abs_dot, vec3_dot, vec3_neg, Bounds2i, Ray, Vector3};
use crate::interaction::SurfaceInteraction;
use crate::lightdistrib::{create_light_sample_distribution, distribution_for, LightDistribution};
use crate::reflection::{TransportMode, BSDF_NON_SPECULAR, BSDF_SPECULAR, BSDF_TRANSMISSION};
use crate::sampler::Sampler;
use crate::scene::Scene;
use crate::spectrum::Spectrum;
use vstd::prelude::*;

verus! {

/// The least probability with which Russian roulette ends a path: a twentieth.
pub const RR_MIN_TERMINATION: Fixed = 3277;

/// The number of bounces a path must have behind it before Russian roulette may end it.
pub const RR_MIN_BOUNCES: u32 = 3;

/// A camera, named by its place in the scene's table of cameras.
#[derive(Clone, Copy, Debug, PartialEq, Eq, Structural)]
pub struct CameraId {
    pub index: usize,
}

/// Why a path has ended.
#[derive(Clone, Copy, Debug, PartialEq, Eq, Structural)]
pub enum Termination {
    /// The ray left the scene.
    Escaped,
    /// The path is as long as it may be.
    DepthExhausted,
    /// The surface scattered nothing into the sampled direction.
    Absorbed,
    /// Russian roulette ended the path.
    RoulettedOut,
    /// A value handed to the path cannot be: negative or infinite energy, a negative
    /// probability density, or an answer to a question that was not asked.
    Defect,
}

/// What a path waits for.
#[derive(Clone, Copy, Debug, PartialEq, Eq)]
pub enum PathPhase {
    /// The nearest hit of the current ray.
    Intersection,
    /// An estimate of the direct lighting at the hit.
    DirectLight(SurfaceInteraction),
    /// A direction sampled from the scattering function at the hit.
    BsdfSample(SurfaceInteraction),
    /// A point sampled from the subsurface scattering function at the hit.
    Subsurface(SurfaceInteraction),
    /// An estimate of the direct lighting at the point where light leaves the surface again.
    ExitDirectLight(SurfaceInteraction),
    /// A direction sampled from the scattering function at that point.
    ExitBsdfSample(SurfaceInteraction),
    /// A uniform number that decides whether the path goes on; it ends with probability `q`.
    Roulette { q: Fixed },
    /// Nothing: the path has ended.
    Done(Termination),
}

/// What the scene and its collaborators answer.
#[derive(Debug, PartialEq, Eq)]
pub enum PathEvent {
    /// The ray hit nothing; the radiance of each infinite light along the ray, in the
    /// scene's order.
    Miss { infinite_le: Vec<Spectrum> },
    /// The ray hit a surface.
    Hit(SurfaceInteraction),
    /// The direct lighting from one sampled light.
    DirectLight(Spectrum),
    /// The value `f` of the scattering function for the sampled direction `wi`, the
    /// density `pdf` of the sample and the kind of lobe that was sampled.
    BsdfSample { f: Spectrum, wi: Vector3, pdf: Fixed, sampled_type: u8 },
    /// The value `s` of the subsurface scattering function, the density of the sample and
    /// the point where the light leaves the surface, if one was found.
    Subsurface { s: Spectrum, pdf: Fixed, exit: Option<SurfaceInteraction> },
    /// A uniform number from zero up to, but not including, one.
    Uniform(Fixed),
}

/// A path on its way through the scene.
#[derive(Clone, Copy, Debug, PartialEq, Eq)]
pub struct PathState {
    /// The radiance gathered so far.
    pub l: Spectrum,
    /// The throughput: the product of the scattering weights along the path.
    pub beta: Spectrum,
    /// The ray to the next vertex.
    pub ray: Ray,
    /// Whether the last bounce was specular.
    pub specular_bounce: bool,
    pub bounces: u32,
    /// The radiance scaling that refraction has added to the throughput.
    pub eta_scale: Fixed,
    pub phase: PathPhase,
}

/// Whether none of the colours has a negative channel.
pub open spec fn all_valid(les: Seq<Spectrum>) -> bool {
    forall|i: int| 0 <= i < les.len() ==> (#[trigger] les[i]).is_valid()
}

/// The weight `f * |cos| / pdf` of a sampled direction, each channel rounded toward zero
/// and kept in range. `abs_cos` is the magnitude of an exact dot product.
pub open spec fn throughput_weight(f: Spectrum, abs_cos: int, pdf: Fixed) -> Spectrum {
    Spectrum {
        r: fx(quot(f.r * abs_cos, pdf * ONE)),
        g: fx(quot(f.g * abs_cos, pdf * ONE)),
        b: fx(quot(f.b * abs_cos, pdf * ONE)),
    }
}

/// The radiance scaling after a specular transmission through a surface of relative index
/// of refraction `eta`: multiplied by the square of `eta` on the way in, divided by it on
/// the way out.
pub open spec fn refracted_scale(eta_scale: Fixed, eta: Fixed, entering: bool) -> Fixed {
    let eta2 = fx(quot(eta * eta, ONE as int));
    if entering {
        fx(quot(eta_scale * eta2, ONE as int))
    } else if eta2 == 0 {
        FIXED_MAX
    } else {
        fx(quot(eta_scale * ONE, eta2 as int))
    }
}

/// The probability with which Russian roulette ends a path whose largest throughput
/// channel, refraction set aside, is `rr_max`: one minus that channel, but at least a
/// twentieth.
pub open spec fn termination_probability(rr_max: Fixed) -> Fixed {
    if fx(ONE - rr_max) > RR_MIN_TERMINATION {
        fx(ONE - rr_max)
    } else {
        RR_MIN_TERMINATION
    }
}

impl PathState {
    /// The state of a path that starts along the camera ray `r`.
    pub open spec fn initial(r: Ray) -> PathState {
        PathState {
            l: Spectrum::uniform(0),
            beta: Spectrum::uniform(ONE),
            ray: r,
            specular_bounce: false,
            bounces: 0,
            eta_scale: ONE,
            phase: PathPhase::Intersection,
        }
    }

    /// Whether the radiance has no negative channel and the throughput is finite and has
    /// no negative channel.
    pub open spec fn wf(self) -> bool {
        self.l.is_valid() && self.beta.is_finite()
    }

    /// Whether the path has ended.
    pub open spec fn is_done(self) -> bool {
        self.phase is Done
    }

    /// Whether light that a surface or the environment emits toward the path counts: at the
    /// camera and after a specular bounce, where light sampling has not counted it already.
    pub open spec fn sees_emission(self) -> bool {
        self.bounces == 0 || self.specular_bounce
    }

    /// The state with the path ended.
    pub open spec fn finished(self, t: Termination) -> PathState {
        PathState { phase: PathPhase::Done(t), ..self }
    }

    /// The state with the radiance `x`, weighted by the throughput, added.
    pub open spec fn contribute(self, x: Spectrum) -> PathState {
        PathState { l: self.l.plus(self.beta.times(x)), ..self }
    }

    /// The state with the radiance of each light in turn, weighted by the throughput, added.
    pub open spec fn gather(self, les: Seq<Spectrum>) -> PathState
        decreases les.len(),
    {
        if les.len() == 0 {
            self
        } else {
            self.gather(les.drop_last()).contribute(les.last())
        }
    }

    /// The state at the start of the next bounce.
    pub open spec fn next_bounce(self) -> PathState {
        PathState {
            bounces: if self.bounces < u32::MAX {
                (self.bounces + 1) as u32
            } else {
                self.bounces
            },
            phase: PathPhase::Intersection,
            ..self
        }
    }

    /// The state of a path that starts along the camera ray `r`.
    pub fn new(r: &Ray) -> (s: PathState)
        ensures
            s == PathState::initial(*r),
            s.wf(),
    {
        PathState {
            l: Spectrum::new(0),
            beta: Spectrum::new(ONE),
            ray: *r,
            specular_bounce: false,
            bounces: 0,
            eta_scale: ONE,
            phase: PathPhase::Intersection,
        }
    }

    fn finish(&self, t: Termination) -> (s: PathState)
        ensures
            s == self.finished(t),
    {
        PathState { phase: PathPhase::Done(t), ..*self }
    }

    fn add_contribution(&self, x: &Spectrum) -> (s: PathState)
        ensures
            s == self.contribute(*x),
            self.wf() && x.is_valid() ==> s.wf(),
    {
        PathState { l: self.l.sum(&self.beta.product(x)), ..*self }
    }

    fn start_next_bounce(&self) -> (s: PathState)
        ensures
            s == self.next_bounce(),
    {
        PathState {
            bounces: if self.bounces < u32::MAX {
                self.bounces + 1
            } else {
                self.bounces
            },
            phase: PathPhase::Intersection,
            ..*self
        }
    }
}

/// The weight `f * |cos| / pdf` of a sampled direction. For a value `f` without negative
/// channels and a positive density, no channel of the weight is negative; and the weight
/// is finite as long as the largest channel of `f * |cos|` stays below the largest scalar
/// times the density.
pub fn sample_weight(f: &Spectrum, abs_cos: i128, pdf: Fixed) -> (w: Spectrum)
    requires
        pdf != 0,
        0 <= abs_cos <= 0xc000_0000_0000_0000,
    ensures
        w == throughput_weight(*f, abs_cos as int, pdf),
        f.is_valid() && pdf > 0 ==> w.is_valid(),
        f.is_valid() && pdf > 0 && f.max_component() * abs_cos < FIXED_MAX * (pdf * ONE)
            ==> w.is_finite(),
{
    proof {
        lemma_product_bound(f.r as int, abs_cos as int, 0x8000_0000, 0xc000_0000_0000_0000);
        lemma_product_bound(f.g as int, abs_cos as int, 0x8000_0000, 0xc000_0000_0000_0000);
        lemma_product_bound(f.b as int, abs_cos as int, 0x8000_0000, 0xc000_0000_0000_0000);
        if f.is_valid() && pdf > 0 {
            lemma_product_sign(f.r as int, abs_cos as int);
            lemma_product_sign(f.g as int, abs_cos as int);
            lemma_product_sign(f.b as int, abs_cos as int);
            lemma_quot_sign(f.r * abs_cos, pdf * ONE);
            lemma_quot_sign(f.g * abs_cos, pdf * ONE);
            lemma_quot_sign(f.b * abs_cos, pdf * ONE);
            let top = f.max_component() * abs_cos;
            if top < FIXED_MAX * (pdf * ONE) {
                lemma_product_grows(f.r as int, f.max_component() as int, abs_cos as int);
                lemma_product_grows(f.g as int, f.max_component() as int, abs_cos as int);
                lemma_product_grows(f.b as int, f.max_component() as int, abs_cos as int);
                lemma_quot_below(f.r * abs_cos, top, pdf * ONE, FIXED_MAX as int);
                lemma_quot_below(f.g * abs_cos, top, pdf * ONE, FIXED_MAX as int);
                lemma_quot_below(f.b * abs_cos, top, pdf * ONE, FIXED_MAX as int);
            }
        }
    }
    let den: i128 = (pdf as i128) * 65536;
    Spectrum {
        r: saturate(wide_quot((f.r as i128) * abs_cos, den)),
        g: saturate(wide_quot((f.g as i128) * abs_cos, den)),
        b: saturate(wide_quot((f.b as i128) * abs_cos, den)),
    }
}

/// The radiance scaling after a specular transmission.
pub fn refract_scale(eta_scale: Fixed, eta: Fixed, entering: bool) -> (r: Fixed)
    ensures
        r == refracted_scale(eta_scale, eta, entering),
{
    let eta2: Fixed = fixed_mul(eta, eta);
    if entering {
        fixed_mul(eta_scale, eta2)
    } else if eta2 == 0 {
        FIXED_MAX
    } else {
        saturate(wide_quot(wide_mul(eta_scale, ONE), eta2 as i128))
    }
}

/// The probability with which Russian roulette ends a path.
pub fn roulette_probability(rr_max: Fixed) -> (q: Fixed)
    ensures
        q == termination_probability(rr_max),
        q >= RR_MIN_TERMINATION,
        rr_max >= 0 ==> q <= ONE,
{
    let rest: Fixed = fixed_sub(ONE, rr_max);
    if rest > RR_MIN_TERMINATION {
        rest
    } else {
        RR_MIN_TERMINATION
    }
}

/// Whether none of the colours has a negative channel.
pub fn check_all_valid(les: &Vec<Spectrum>) -> (r: bool)
    ensures
        r == all_valid(les@),
{
    let mut i: usize = 0;
    while i < les.len()
        invariant
            i <= les.len(),
            forall|j: int| 0 <= j < i ==> (#[trigger] les@[j]).is_valid(),
        decreases les.len() - i,
    {
        if !les[i].is_non_negative() {
            return false;
        }
        i = i + 1;
    }
    true
}

/// Path tracing: light transport along paths that start at the camera, with one light
/// sampled at every vertex and Russian roulette to end long paths.
pub struct PathIntegrator {
    pub camera: CameraId,
    /// The sampler from which every render thread clones its own.
    pub sampler: Box<Sampler>,
    pub pixel_bounds: Bounds2i,
    /// The largest number of bounces of a path.
    pub max_depth: u32,
    /// The throughput below which Russian roulette may end a path.
    pub rr_threshold: Fixed,
    /// The name of the strategy by which lights are weighted.
    pub light_sample_strategy: String,
    /// The light distribution, once it has been built.
    pub light_distribution: Option<LightDistribution>,
}

impl PathIntegrator {
    /// The state after the ray has left the scene: the radiance of the infinite lights
    /// counts where emission is seen, and the path ends.
    pub open spec fn on_miss(self, st: PathState, infinite_le: Seq<Spectrum>) -> PathState {
        if !st.sees_emission() {
            st.finished(Termination::Escaped)
        } else if all_valid(infinite_le) {
            st.gather(infinite_le).finished(Termination::Escaped)
        } else {
            st.finished(Termination::Defect)
        }
    }

    /// The state after the ray has hit a surface. The emitted radiance counts where
    /// emission is seen. A path that is as long as it may be ends. Otherwise the scattering
    /// functions are computed: without one, the ray goes on in its direction and the bounce
    /// does not count; without a light distribution, the bounce counts and nothing else
    /// happens; else the path asks for the direct lighting, unless every lobe is specular,
    /// and then for a sampled direction.
    pub open spec fn on_hit(self, st: PathState, isect: SurfaceInteraction, scene: Scene) -> PathState {
        let le = isect.emitted(st.ray.d.negated(), scene.primitives@);
        let lit = if st.sees_emission() {
            st.contribute(le)
        } else {
            st
        };
        let hit = isect.with_scattering_functions(
            st.ray,
            scene.primitives@,
            true,
            TransportMode::Radiance,
        );
        if st.sees_emission() && !le.is_valid() {
            st.finished(Termination::Defect)
        } else if lit.bounces >= self.max_depth {
            lit.finished(Termination::DepthExhausted)
        } else {
            match hit.bsdf {
                None => PathState { ray: hit.common.ray_toward(st.ray.d), ..lit },
                Some(bsdf) => if self.light_distribution.is_none() {
                    lit.next_bounce()
                } else if bsdf.components(BSDF_NON_SPECULAR) > 0 {
                    PathState { phase: PathPhase::DirectLight(hit), ..lit }
                } else {
                    PathState { phase: PathPhase::BsdfSample(hit), ..lit }
                },
            }
        }
    }

    /// The state after the direct lighting at the hit has been estimated: it counts, and
    /// the path asks for a sampled direction.
    pub open spec fn on_direct_light(self, st: PathState, isect: SurfaceInteraction, ld: Spectrum) -> PathState {
        if !ld.is_valid() {
            st.finished(Termination::Defect)
        } else {
            PathState { phase: PathPhase::BsdfSample(isect), ..st.contribute(ld) }
        }
    }

    /// The state before Russian roulette: a path past its third bounce whose largest
    /// throughput channel, refraction set aside, is below the threshold asks for a uniform
    /// number; any other path starts its next bounce.
    pub open spec fn before_roulette(self, st: PathState) -> PathState {
        let rr_max = st.beta.scaled(st.eta_scale).max_component();
        if rr_max < self.rr_threshold && st.bounces > RR_MIN_BOUNCES {
            PathState { phase: PathPhase::Roulette { q: termination_probability(rr_max) }, ..st }
        } else {
            st.next_bounce()
        }
    }

    /// The state after a direction has been sampled at the hit. A black value or a density
    /// of zero ends the path. Otherwise the throughput takes the weight of the sample, a
    /// specular transmission changes the radiance scaling, and the next ray leaves along
    /// the sampled direction. Where light entered a surface with subsurface scattering,
    /// the path asks for the point where it leaves; else Russian roulette follows.
    pub open spec fn on_bsdf_sample(
        self,
        st: PathState,
        isect: SurfaceInteraction,
        f: Spectrum,
        wi: Vector3,
        pdf: Fixed,
        sampled_type: u8,
    ) -> PathState {
        let beta = st.beta.times(throughput_weight(f, magnitude(wi.dot(isect.shading.n)), pdf));
        let eta_scale = match isect.bsdf {
            Some(bsdf) => if sampled_type & BSDF_SPECULAR != 0 && sampled_type & BSDF_TRANSMISSION
                != 0 {
                refracted_scale(st.eta_scale, bsdf.eta, st.ray.d.negated().dot(isect.common.n) > 0)
            } else {
                st.eta_scale
            },
            None => st.eta_scale,
        };
        let scattered = PathState {
            beta,
            specular_bounce: sampled_type & BSDF_SPECULAR != 0,
            eta_scale,
            ray: isect.common.ray_toward(wi),
            ..st
        };
        if !f.is_valid() || pdf < 0 {
            st.finished(Termination::Defect)
        } else if f.black() || pdf == 0 {
            st.finished(Termination::Absorbed)
        } else if !beta.is_finite() {
            st.finished(Termination::Defect)
        } else if isect.bssrdf.is_some() && sampled_type & BSDF_TRANSMISSION != 0 {
            PathState { phase: PathPhase::Subsurface(isect), ..scattered }
        } else {
            self.before_roulette(scattered)
        }
    }

    /// The state after the subsurface scattering function has been sampled. A black value
    /// or a density of zero ends the path. Otherwise the throughput takes the value over
    /// the density; where a point was found at which the light leaves the surface, the path
    /// asks for the direct lighting there; else Russian roulette follows.
    pub open spec fn on_subsurface(
        self,
        st: PathState,
        s: Spectrum,
        pdf: Fixed,
        exit: Option<SurfaceInteraction>,
    ) -> PathState {
        let beta = st.beta.times(s.divided(pdf));
        let scattered = PathState { beta, ..st };
        if !s.is_valid() || pdf < 0 {
            st.finished(Termination::Defect)
        } else if s.black() || pdf == 0 {
            st.finished(Termination::Absorbed)
        } else if !beta.is_finite() {
            st.finished(Termination::Defect)
        } else {
            match exit {
                Some(pi) => PathState { phase: PathPhase::ExitDirectLight(pi), ..scattered },
                None => self.before_roulette(scattered),
            }
        }
    }

    /// The state after the direct lighting at the point where light leaves the surface has
    /// been estimated: it counts, and the path asks for a sampled direction there, or goes
    /// on to Russian roulette where that point has no scattering function.
    pub open spec fn on_exit_direct_light(self, st: PathState, pi: SurfaceInteraction, ld: Spectrum) -> PathState {
        if !ld.is_valid() {
            st.finished(Termination::Defect)
        } else if pi.bsdf.is_some() {
            PathState { phase: PathPhase::ExitBsdfSample(pi), ..st.contribute(ld) }
        } else {
            self.before_roulette(st.contribute(ld))
        }
    }

    /// The state after a direction has been sampled at the point where light leaves the
    /// surface: as at a hit, but the radiance scaling stays, and Russian roulette follows.
    pub open spec fn on_exit_bsdf_sample(
        self,
        st: PathState,
        pi: SurfaceInteraction,
        f: Spectrum,
        wi: Vector3,
        pdf: Fixed,
        sampled_type: u8,
    ) -> PathState {
        let beta = st.beta.times(throughput_weight(f, magnitude(wi.dot(pi.shading.n)), pdf));
        let scattered = PathState {
            beta,
            specular_bounce: sampled_type & BSDF_SPECULAR != 0,
            ray: pi.common.ray_toward(wi),
            ..st
        };
        if !f.is_valid() || pdf < 0 {
            st.finished(Termination::Defect)
        } else if f.black() || pdf == 0 {
            st.finished(Termination::Absorbed)
        } else if !beta.is_finite() {
            st.finished(Termination::Defect)
        } else {
            self.before_roulette(scattered)
        }
    }

    /// The state after Russian roulette has drawn the uniform number `u`: below `q` the
    /// path ends; else the throughput is divided by the probability of going on, and the
    /// next bounce starts.
    pub open spec fn on_uniform(self, st: PathState, q: Fixed, u: Fixed) -> PathState {
        let beta = st.beta.divided(fx(ONE - q));
        if !(0 <= u < ONE) {
            st.finished(Termination::Defect)
        } else if u < q {
            st.finished(Termination::RoulettedOut)
        } else if !beta.is_finite() {
            st.finished(Termination::Defect)
        } else {
            PathState { beta, ..st }.next_bounce()
        }
    }

    /// The state of the path after the answer `event` to what the path was waiting for. A
    /// path that has ended stays as it is; an answer to another question is a defect.
    pub open spec fn next(self, st: PathState, event: PathEvent, scene: Scene) -> PathState {
        match (st.phase, event) {
            (PathPhase::Done(_), _) => st,
            (PathPhase::Intersection, PathEvent::Miss { infinite_le }) => self.on_miss(
                st,
                infinite_le@,
            ),
            (PathPhase::Intersection, PathEvent::Hit(isect)) => self.on_hit(st, isect, scene),
            (PathPhase::DirectLight(isect), PathEvent::DirectLight(ld)) => self.on_direct_light(
                st,
                isect,
                ld,
            ),
            (
                PathPhase::BsdfSample(isect),
                PathEvent::BsdfSample { f, wi, pdf, sampled_type },
            ) => self.on_bsdf_sample(st, isect, f, wi, pdf, sampled_type),
            (PathPhase::Subsurface(_), PathEvent::Subsurface { s, pdf, exit }) => self.on_subsurface(
                st,
                s,
                pdf,
                exit,
            ),
            (PathPhase::ExitDirectLight(pi), PathEvent::DirectLight(ld)) => self.on_exit_direct_light(
                st,
                pi,
                ld,
            ),
            (
                PathPhase::ExitBsdfSample(pi),
                PathEvent::BsdfSample { f, wi, pdf, sampled_type },
            ) => self.on_exit_bsdf_sample(st, pi, f, wi, pdf, sampled_type),
            (PathPhase::Roulette { q }, PathEvent::Uniform(u)) => self.on_uniform(st, q, u),
            _ => st.finished(Termination::Defect),
        }
    }

    /// The state after the first `n` of the answers, or after fewer where the path ends
    /// early.
    pub open spec fn replay(self, st: PathState, events: Seq<PathEvent>, n: nat, scene: Scene) -> PathState
        decreases n,
    {
        if n == 0 {
            st
        } else {
            self.next(self.replay(st, events, (n - 1) as nat, scene), events[n - 1], scene)
        }
    }

    /// A path tracer with the given limits; its light distribution is still to be built.
    pub fn new(
        max_depth: u32,
        camera: CameraId,
        sampler: Box<Sampler>,
        pixel_bounds: Bounds2i,
        rr_threshold: Fixed,
        light_sample_strategy: String,
    ) -> (r: Self)
        ensures
            r.max_depth == max_depth,
            r.camera == camera,
            r.sampler == sampler,
            r.pixel_bounds == pixel_bounds,
            r.rr_threshold == rr_threshold,
            r.light_sample_strategy@ == light_sample_strategy@,
            r.light_distribution.is_none(),
    {
        PathIntegrator {
            camera,
            sampler,
            pixel_bounds,
            max_depth,
            rr_threshold,
            light_sample_strategy,
            light_distribution: None,
        }
    }

    /// Builds the light distribution for the scene. Nothing else changes.
    pub fn preprocess(&mut self, scene: &Scene)
        ensures
            final(self).light_distribution == Some(
                distribution_for(old(self).light_sample_strategy@, scene.n_lights as nat),
            ),
            final(self).max_depth == old(self).max_depth,
            final(self).camera == old(self).camera,
            final(self).sampler == old(self).sampler,
            final(self).pixel_bounds == old(self).pixel_bounds,
            final(self).rr_threshold == old(self).rr_threshold,
            final(self).light_sample_strategy@ == old(self).light_sample_strategy@,
    {
        self.light_distribution = create_light_sample_distribution(
            &self.light_sample_strategy,
            scene,
        );
    }

    fn miss(&self, st: &PathState, infinite_le: &Vec<Spectrum>) -> (r: PathState)
        ensures
            r == self.on_miss(*st, infinite_le@),
            st.wf() ==> r.wf(),
    {
        if !(st.bounces == 0 || st.specular_bounce) {
            return st.finish(Termination::Escaped);
        }
        if !check_all_valid(infinite_le) {
            return st.finish(Termination::Defect);
        }
        // the environment is seen directly
        let mut acc: PathState = *st;
        let mut i: usize = 0;
        assert(infinite_le@.take(0) =~= Seq::<Spectrum>::empty());
        while i < infinite_le.len()
            invariant
                i <= infinite_le.len(),
                all_valid(infinite_le@),
                acc == st.gather(infinite_le@.take(i as int)),
                st.wf() ==> acc.wf(),
            decreases infinite_le.len() - i,
        {
            proof {
                let upto = infinite_le@.take(i + 1);
                assert(upto.drop_last() =~= infinite_le@.take(i as int));
                assert(upto.last() == infinite_le@[i as int]);
            }
            acc = acc.add_contribution(&infinite_le[i]);
            i = i + 1;
        }
        assert(infinite_le@.take(i as int) =~= infinite_le@);
        // nothing lies beyond
        acc.finish(Termination::Escaped)
    }

    fn hit(&self, st: &PathState, isect: &SurfaceInteraction, scene: &Scene) -> (r: PathState)
        ensures
            r == self.on_hit(*st, *isect, *scene),
            st.wf() ==> r.wf(),
    {
        let mut lit: PathState = *st;
        // the surface is seen directly: what it emits counts
        if st.bounces == 0 || st.specular_bounce {
            let le: Spectrum = isect.le(&vec3_neg(&st.ray.d), &scene.primitives);
            if !le.is_non_negative() {
                return st.finish(Termination::Defect);
            }
            lit = st.add_contribution(&le);
        }
        // a path at its largest depth ends here
        if lit.bounces >= self.max_depth {
            return lit.finish(Termination::DepthExhausted);
        }
        // a surface that does not scatter only marks the boundary of a medium
        let mut hit: SurfaceInteraction = *isect;
        hit.compute_scattering_functions(&st.ray, &scene.primitives, true, TransportMode::Radiance);
        match hit.bsdf {
            None => PathState { ray: hit.common.spawn_ray(&st.ray.d), ..lit },
            Some(bsdf) => {
                if self.light_distribution.is_none() {
                    lit.start_next_bounce()
                } else if bsdf.num_components(BSDF_NON_SPECULAR) > 0 {
                    // some lobe can be lit from a sampled light
                    PathState { phase: PathPhase::DirectLight(hit), ..lit }
                } else {
                    // no sampled light can be seen in a perfect mirror or lens
                    PathState { phase: PathPhase::BsdfSample(hit), ..lit }
                }
            },
        }
    }

    fn direct_light(&self, st: &PathState, isect: &SurfaceInteraction, ld: &Spectrum) -> (r: PathState)
        ensures
            r == self.on_direct_light(*st, *isect, *ld),
            st.wf() ==> r.wf(),
    {
        if !ld.is_non_negative() {
            st.finish(Termination::Defect)
        } else {
            PathState { phase: PathPhase::BsdfSample(*isect), ..st.add_contribution(ld) }
        }
    }

    fn roulette(&self, st: &PathState) -> (r: PathState)
        ensures
            r == self.before_roulette(*st),
            st.wf() ==> r.wf(),
    {
        // what refraction alone has added to the throughput must not end the path
        let rr_max: Fixed = st.beta.scale(st.eta_scale).max_component_value();
        if rr_max < self.rr_threshold && st.bounces > RR_MIN_BOUNCES {
            PathState { phase: PathPhase::Roulette { q: roulette_probability(rr_max) }, ..*st }
        } else {
            st.start_next_bounce()
        }
    }

    fn bsdf_sample(
        &self,
        st: &PathState,
        isect: &SurfaceInteraction,
        f: &Spectrum,
        wi: &Vector3,
        pdf: Fixed,
        sampled_type: u8,
    ) -> (r: PathState)
        ensures
            r == self.on_bsdf_sample(*st, *isect, *f, *wi, pdf, sampled_type),
            st.wf() ==> r.wf(),
    {
        if !f.is_non_negative() || pdf < 0 {
            return st.finish(Termination::Defect);
        }
        if f.is_black() || pdf == 0 {
            return st.finish(Termination::Absorbed);
        }
        let beta: Spectrum = st.beta.product(
            &sample_weight(f, vec3_abs_dot(wi, &isect.shading.n), pdf),
        );
        if !beta.is_finite_non_negative() {
            return st.finish(Termination::Defect);
        }
        let specular: bool = sampled_type & BSDF_SPECULAR != 0;
        let transmission: bool = sampled_type & BSDF_TRANSMISSION != 0;
        let mut eta_scale: Fixed = st.eta_scale;
        if let Some(bsdf) = isect.bsdf {
            if specular && transmission {
                // light is compressed on the way into a denser medium and spread on the
                // way out
                let entering: bool = vec3_dot(&vec3_neg(&st.ray.d), &isect.common.n) > 0;
                eta_scale = refract_scale(st.eta_scale, bsdf.eta, entering);
            }
        }
        let scattered: PathState = PathState {
            beta,
            specular_bounce: specular,
            eta_scale,
            ray: isect.common.spawn_ray(wi),
            ..*st
        };
        // light that went below the surface leaves it somewhere else
        if isect.bssrdf.is_some() && transmission {
            PathState { phase: PathPhase::Subsurface(*isect), ..scattered }
        } else {
            self.roulette(&scattered)
        }
    }

    fn subsurface(
        &self,
        st: &PathState,
        s: &Spectrum,
        pdf: Fixed,
        exit: &Option<SurfaceInteraction>,
    ) -> (r: PathState)
        ensures
            r == self.on_subsurface(*st, *s, pdf, *exit),
            st.wf() ==> r.wf(),
    {
        if !s.is_non_negative() || pdf < 0 {
            return st.finish(Termination::Defect);
        }
        if s.is_black() || pdf == 0 {
            return st.finish(Termination::Absorbed);
        }
        let beta: Spectrum = st.beta.product(&s.divide(pdf));
        if !beta.is_finite_non_negative() {
            return st.finish(Termination::Defect);
        }
        let scattered: PathState = PathState { beta, ..*st };
        match exit {
            // the exit point is a vertex of its own: first its direct lighting
            Some(pi) => PathState { phase: PathPhase::ExitDirectLight(*pi), ..scattered },
            None => self.roulette(&scattered),
        }
    }

    fn exit_direct_light(&self, st: &PathState, pi: &SurfaceInteraction, ld: &Spectrum) -> (r: PathState)
        ensures
            r == self.on_exit_direct_light(*st, *pi, *ld),
            st.wf() ==> r.wf(),
    {
        if !ld.is_non_negative() {
            st.finish(Termination::Defect)
        } else if pi.bsdf.is_some() {
            // then the direction in which the path leaves it
            PathState { phase: PathPhase::ExitBsdfSample(*pi), ..st.add_contribution(ld) }
        } else {
            self.roulette(&st.add_contribution(ld))
        }
    }

    fn exit_bsdf_sample(
        &self,
        st: &PathState,
        pi: &SurfaceInteraction,
        f: &Spectrum,
        wi: &Vector3,
        pdf: Fixed,
        sampled_type: u8,
    ) -> (r: PathState)
        ensures
            r == self.on_exit_bsdf_sample(*st, *pi, *f, *wi, pdf, sampled_type),
            st.wf() ==> r.wf(),
    {
        if !f.is_non_negative() || pdf < 0 {
            return st.finish(Termination::Defect);
        }
        if f.is_black() || pdf == 0 {
            return st.finish(Termination::Absorbed);
        }
        let beta: Spectrum = st.beta.product(
            &sample_weight(f, vec3_abs_dot(wi, &pi.shading.n), pdf),
        );
        if !beta.is_finite_non_negative() {
            return st.finish(Termination::Defect);
        }
        let scattered: PathState = PathState {
            beta,
            specular_bounce: sampled_type & BSDF_SPECULAR != 0,
            ray: pi.common.spawn_ray(wi),
            ..*st
        };
        self.roulette(&scattered)
    }

    fn uniform(&self, st: &PathState, q: Fixed, u: Fixed) -> (r: PathState)
        ensures
            r == self.on_uniform(*st, q, u),
            st.wf() ==> r.wf(),
    {
        if !(0 <= u && u < ONE) {
            return st.finish(Termination::Defect);
        }
        if u < q {
            return st.finish(Termination::RoulettedOut);
        }
        let beta: Spectrum = st.beta.divide(fixed_sub(ONE, q));
        if !beta.is_finite_non_negative() {
            return st.finish(Termination::Defect);
        }
        PathState { beta, ..*st }.start_next_bounce()
    }

    /// Takes the path one step on: the state after the answer `event` to what the path was
    /// waiting for. The radiance never turns negative, and the throughput stays finite and
    /// never turns negative.
    pub fn advance(&self, st: &PathState, event: &PathEvent, scene: &Scene) -> (r: PathState)
        ensures
            r == self.next(*st, *event, *scene),
            st.wf() ==> r.wf(),
    {
        match st.phase {
            PathPhase::Done(_) => *st,
            PathPhase::Intersection => match event {
                PathEvent::Miss { infinite_le } => self.miss(st, infinite_le),
                PathEvent::Hit(isect) => self.hit(st, isect, scene),
                _ => st.finish(Termination::Defect),
            },
            PathPhase::DirectLight(isect) => match event {
                PathEvent::DirectLight(ld) => self.direct_light(st, &isect, ld),
                _ => st.finish(Termination::Defect),
            },
            PathPhase::BsdfSample(isect) => match event {
                PathEvent::BsdfSample { f, wi, pdf, sampled_type } => self.bsdf_sample(
                    st,
                    &isect,
                    f,
                    wi,
                    *pdf,
                    *sampled_type,
                ),
                _ => st.finish(Termination::Defect),
            },
            PathPhase::Subsurface(_) => match event {
                PathEvent::Subsurface { s, pdf, exit } => self.subsurface(st, s, *pdf, exit),
                _ => st.finish(Termination::Defect),
            },
            PathPhase::ExitDirectLight(pi) => match event {
                PathEvent::DirectLight(ld) => self.exit_direct_light(st, &pi, ld),
                _ => st.finish(Termination::Defect),
            },
            PathPhase::ExitBsdfSample(pi) => match event {
                PathEvent::BsdfSample { f, wi, pdf, sampled_type } => self.exit_bsdf_sample(
                    st,
                    &pi,
                    f,
                    wi,
                    *pdf,
                    *sampled_type,
                ),
                _ => st.finish(Termination::Defect),
            },
            PathPhase::Roulette { q } => match event {
                PathEvent::Uniform(u) => self.uniform(st, q, *u),
                _ => st.finish(Termination::Defect),
            },
        }
    }

    /// The radiance along the camera ray `r` of the path that the recorded answers
    /// describe: the radiance gathered once every answer has been taken in.
    pub open spec fn radiance(self, r: Ray, events: Seq<PathEvent>, scene: Scene) -> Spectrum {
        self.replay(PathState::initial(r), events, events.len(), scene).l
    }

    /// The radiance along the camera ray `r` of the path that the recorded answers
    /// describe.
    pub fn li(&self, r: &Ray, scene: &Scene, events: &Vec<PathEvent>) -> (l: Spectrum)
        ensures
            l == self.radiance(*r, events@, *scene),
            l.is_valid(),
    {
        let mut st: PathState = PathState::new(r);
        let mut i: usize = 0;
        while i < events.len()
            invariant
                i <= events.len(),
                st == self.replay(PathState::initial(*r), events@, i as nat, *scene),
                st.wf(),
            decreases events.len() - i,
        {
            st = self.advance(&st, &events[i], scene);
            i = i + 1;
        }
        st.l
    }

    pub fn get_camera(&self) -> (r: CameraId)
        ensures
            r == self.camera,
    {
        self.camera
    }

    pub fn get_sampler(&self) -> (r: &Sampler)
        ensures
            *r == *self.sampler,
    {
        &self.sampler
    }

    pub fn get_pixel_bounds(&self) -> (r: Bounds2i)
        ensures
            r == self.pixel_bounds,
    {
        self.pixel_bounds
    }

    pub fn get_max_depth(&self) -> (r: u32)
        ensures
            r == self.max_depth,
    {
        self.max_depth
    }

    pub fn get_rr_threshold(&self) -> (r: Fixed)
        ensures
            r == self.rr_threshold,
    {
        self.rr_threshold
    }

    pub fn get_light_distribution(&self) -> (r: Option<LightDistribution>)
        ensures
            r == self.light_distribution,
    {
        self.light_distribution
    }
}

/// One channel of the throughput after Russian roulette has drawn `u`: nothing where the
/// path ends, the channel over the probability of going on where it goes on.
pub open spec fn roulette_outcome(beta: Fixed, q: Fixed, u: int) -> int {
    if u < q {
        0
    } else {
        clamp(quot(beta * ONE, fx(ONE - q) as int))
    }
}

/// The sum of the outcomes of Russian roulette over the draws `0, 1, ..., n - 1`.
pub open spec fn roulette_total(beta: Fixed, q: Fixed, n: nat) -> int
    decreases n,
{
    if n == 0 {
        0
    } else {
        roulette_total(beta, q, (n - 1) as nat) + roulette_outcome(beta, q, n - 1)
    }
}

/// The draws below `q` count nothing, and every other draw counts the same.
pub proof fn lemma_roulette_total(beta: Fixed, q: Fixed, n: nat)
    requires
        0 <= q,
    ensures
        n <= q ==> roulette_total(beta, q, n) == 0,
        n > q ==> roulette_total(beta, q, n) == (n - q) * roulette_outcome(beta, q, q as int),
    decreases n,
{
    if n > 0 {
        lemma_roulette_total(beta, q, (n - 1) as nat);
        let post = roulette_outcome(beta, q, q as int);
        if n > q {
            assert(roulette_outcome(beta, q, n - 1) == post);
            if n - 1 == q {
                assert(roulette_total(beta, q, (n - 1) as nat) == 0);
                assert((n - q) * post == post) by (nonlinear_arith)
                    requires
                        n - q == 1,
                ;
            } else {
                assert(roulette_total(beta, q, (n - 1) as nat) == (n - 1 - q) * post);
                assert((n - 1 - q) * post + post == (n - q) * post) by (nonlinear_arith);
            }
        } else {
            assert(roulette_outcome(beta, q, n - 1) == 0);
        }
    }
}

/// Russian roulette is unbiased. Every one of the `ONE` uniform draws is as likely as any
/// other; summed over all of them, a channel of the throughput after roulette is the
/// channel before roulette times `ONE`, less the rounding of one division. So the mean
/// throughput after roulette is the throughput before it, short by less than one unit of
/// resolution. This holds for every probability `q` of ending the path, be it the least
/// one or one minus the throughput, as long as the path can go on at all and the
/// throughput over the probability of going on is a scalar.
pub proof fn lemma_roulette_unbiased(beta: Fixed, q: Fixed)
    requires
        0 <= beta,
        0 <= q < ONE,
        beta * ONE < FIXED_MAX * (ONE - q),
    ensures
        beta * ONE - (ONE - q) < roulette_total(beta, q, ONE as nat) <= beta * ONE,
        (beta * ONE) % (ONE - q) == 0 ==> roulette_total(beta, q, ONE as nat) == beta * ONE,
{
    lemma_roulette_total(beta, q, ONE as nat);
    let rest = ONE - q;
    let a = beta * ONE;
    lemma_quotient_brackets(a, rest);
    lemma_quot_below(a, a, rest, FIXED_MAX as int);
    assert(roulette_outcome(beta, q, q as int) == a / rest);
    assert(rest * (a / rest) == (ONE - q) * (a / rest));
    if a % rest == 0 {
        assert(rest * (a / rest) == a) by (nonlinear_arith)
            requires
                a % rest == 0,
                rest > 0,
        ;
    }
}

/// What Russian roulette does to a path is what `roulette_outcome` says of every channel:
/// a draw below `q` ends the path, and any other draw divides the throughput by the
/// probability of going on.
pub proof fn lemma_roulette_follows_outcome(integrator: PathIntegrator, st: PathState, q: Fixed, u: Fixed)
    requires
        0 <= u < ONE,
    ensures
        u < q ==> integrator.on_uniform(st, q, u) == st.finished(Termination::RoulettedOut),
        u >= q && !(integrator.on_uniform(st, q, u).phase is Done) ==> {
            let after = integrator.on_uniform(st, q, u);
            &&& after.beta.r == roulette_outcome(st.beta.r, q, u as int)
            &&& after.beta.g == roulette_outcome(st.beta.g, q, u as int)
            &&& after.beta.b == roulette_outcome(st.beta.b, q, u as int)
            &&& after.l == st.l
        },
{
}

/// A channel times one is the channel, and a channel added to nothing is the channel.
pub proof fn lemma_full_throughput(x: Spectrum)
    ensures
        Spectrum::uniform(ONE).times(x) == x,
        Spectrum::uniform(0).plus(x) == x,
{
    lemma_times_one(x.r as int);
    lemma_times_one(x.g as int);
    lemma_times_one(x.b as int);
}

/// One times a number, over one, is the number.
pub proof fn lemma_times_one(c: int)
    by (nonlinear_arith)
    ensures
        quot(ONE * c, ONE as int) == c,
{
}

/// A path that may not bounce at all never samples a light or a scattering function:
/// whatever the answers, as long as it has not ended it is still waiting for its first
/// intersection.
pub proof fn lemma_depth_zero_samples_nothing(
    integrator: PathIntegrator,
    r: Ray,
    events: Seq<PathEvent>,
    n: nat,
    scene: Scene,
)
    requires
        integrator.max_depth == 0,
    ensures
        integrator.replay(PathState::initial(r), events, n, scene).is_done()
            || integrator.replay(PathState::initial(r), events, n, scene) == PathState::initial(r),
        n > 0 ==> integrator.replay(PathState::initial(r), events, n, scene).is_done(),
    decreases n,
{
    if n > 0 {
        lemma_depth_zero_samples_nothing(integrator, r, events, (n - 1) as nat, scene);
    }
}

/// A path that may not bounce at all returns what the surface it hits emits toward the
/// camera, and nothing else.
pub proof fn lemma_depth_zero_returns_emission(
    integrator: PathIntegrator,
    r: Ray,
    isect: SurfaceInteraction,
    scene: Scene,
)
    requires
        integrator.max_depth == 0,
        isect.emitted(r.d.negated(), scene.primitives@).is_valid(),
    ensures
        integrator.next(PathState::initial(r), PathEvent::Hit(isect), scene).phase
            == PathPhase::Done(Termination::DepthExhausted),
        integrator.next(PathState::initial(r), PathEvent::Hit(isect), scene).l == isect.emitted(
            r.d.negated(),
            scene.primitives@,
        ),
{
    lemma_full_throughput(isect.emitted(r.d.negated(), scene.primitives@));
}

/// A camera ray that hits a surface gathers exactly what the surface emits toward it: at
/// the first vertex emission counts in full, and no light has been sampled yet.
pub proof fn lemma_first_hit_gathers_emission(
    integrator: PathIntegrator,
    r: Ray,
    isect: SurfaceInteraction,
    scene: Scene,
)
    requires
        isect.emitted(r.d.negated(), scene.primitives@).is_valid(),
    ensures
        integrator.next(PathState::initial(r), PathEvent::Hit(isect), scene).l == isect.emitted(
            r.d.negated(),
            scene.primitives@,
        ),
        integrator.next(PathState::initial(r), PathEvent::Hit(isect), scene).beta
            == Spectrum::uniform(ONE),
{
    lemma_full_throughput(isect.emitted(r.d.negated(), scene.primitives@));
}

/// A camera ray that leaves the scene returns the radiance of the single infinite light
/// exactly.
pub proof fn lemma_escaped_returns_environment(
    integrator: PathIntegrator,
    r: Ray,
    infinite_le: Vec<Spectrum>,
    c: Spectrum,
    scene: Scene,
)
    requires
        infinite_le@ == seq![c],
        c.is_valid(),
    ensures
        integrator.next(PathState::initial(r), PathEvent::Miss { infinite_le }, scene).phase
            == PathPhase::Done(Termination::Escaped),
        integrator.next(PathState::initial(r), PathEvent::Miss { infinite_le }, scene).l == c,
{
    let st = PathState::initial(r);
    lemma_full_throughput(c);
    assert(infinite_le@.drop_last() =~= Seq::<Spectrum>::empty());
    assert(infinite_le@.last() == c);
    assert(st.gather(infinite_le@.drop_last()) == st);
    assert(st.gather(infinite_le@) == st.contribute(c));
    assert(all_valid(infinite_le@));
}

impl PathIntegrator {
    /// Whether the path has not bounced more often than it may, and has a bounce to spare
    /// while it works on a vertex.
    pub open spec fn within_depth(self, st: PathState) -> bool {
        &&& st.bounces <= self.max_depth
        &&& st.phase is Intersection || st.phase is Done || st.bounces < self.max_depth
    }
}

/// The throughput of a path stays finite and never turns negative, and the radiance never
/// turns negative, whatever the answers.
pub proof fn lemma_throughput_stays_finite(
    integrator: PathIntegrator,
    r: Ray,
    events: Seq<PathEvent>,
    n: nat,
    scene: Scene,
)
    ensures
        integrator.replay(PathState::initial(r), events, n, scene).wf(),
    decreases n,
{
    if n > 0 {
        lemma_throughput_stays_finite(integrator, r, events, (n - 1) as nat, scene);
        lemma_step_keeps_finite(
            integrator,
            integrator.replay(PathState::initial(r), events, (n - 1) as nat, scene),
            events[n - 1],
            scene,
        );
    }
}

/// Adding radiance without negative channels, weighted by a throughput without negative
/// channels, leaves the radiance without negative channels.
pub proof fn lemma_contribution_is_valid(st: PathState, x: Spectrum)
    requires
        st.wf(),
        x.is_valid(),
    ensures
        st.contribute(x).wf(),
{
    lemma_product_sign(st.beta.r as int, x.r as int);
    lemma_product_sign(st.beta.g as int, x.g as int);
    lemma_product_sign(st.beta.b as int, x.b as int);
}

/// One step keeps the throughput finite and without negative channels, and the radiance
/// without negative channels.
pub proof fn lemma_step_keeps_finite(
    integrator: PathIntegrator,
    st: PathState,
    event: PathEvent,
    scene: Scene,
)
    requires
        st.wf(),
    ensures
        integrator.next(st, event, scene).wf(),
{
    match (st.phase, event) {
        (PathPhase::Intersection, PathEvent::Miss { infinite_le }) => {
            if all_valid(infinite_le@) {
                lemma_gather_grows(st, infinite_le@);
            }
        },
        (PathPhase::Intersection, PathEvent::Hit(isect)) => {
            let le = isect.emitted(st.ray.d.negated(), scene.primitives@);
            if le.is_valid() {
                lemma_contribution_is_valid(st, le);
            }
        },
        (PathPhase::DirectLight(_), PathEvent::DirectLight(ld)) => {
            if ld.is_valid() {
                lemma_contribution_is_valid(st, ld);
            }
        },
        (PathPhase::ExitDirectLight(_), PathEvent::DirectLight(ld)) => {
            if ld.is_valid() {
                lemma_contribution_is_valid(st, ld);
            }
        },
        _ => {},
    }
}

/// The bounce counter of a path never passes the largest depth, whatever the answers.
pub proof fn lemma_bounces_within_depth(
    integrator: PathIntegrator,
    r: Ray,
    events: Seq<PathEvent>,
    n: nat,
    scene: Scene,
)
    ensures
        integrator.within_depth(integrator.replay(PathState::initial(r), events, n, scene)),
    decreases n,
{
    if n > 0 {
        lemma_bounces_within_depth(integrator, r, events, (n - 1) as nat, scene);
        lemma_step_within_depth(
            integrator,
            integrator.replay(PathState::initial(r), events, (n - 1) as nat, scene),
            events[n - 1],
            scene,
        );
    }
}

/// Russian roulette, or the start of the next bounce, keeps a path with a bounce to spare
/// within its depth.
pub proof fn lemma_roulette_within_depth(integrator: PathIntegrator, st: PathState)
    requires
        st.bounces < integrator.max_depth,
    ensures
        integrator.within_depth(integrator.before_roulette(st)),
        integrator.within_depth(st.next_bounce()),
{
}

/// One step keeps a path within its depth.
pub proof fn lemma_step_within_depth(
    integrator: PathIntegrator,
    st: PathState,
    event: PathEvent,
    scene: Scene,
)
    requires
        integrator.within_depth(st),
    ensures
        integrator.within_depth(integrator.next(st, event, scene)),
{
    match (st.phase, event) {
        (PathPhase::Done(_), _) => {},
        (PathPhase::Intersection, PathEvent::Miss { infinite_le }) => {
            lemma_gather_keeps_bounces(st, infinite_le@);
        },
        (PathPhase::Intersection, PathEvent::Hit(isect)) => {
            if st.bounces < integrator.max_depth {
                lemma_roulette_within_depth(integrator, st);
            }
        },
        (PathPhase::DirectLight(isect), PathEvent::DirectLight(ld)) => {},
        (PathPhase::BsdfSample(isect), PathEvent::BsdfSample { f, wi, pdf, sampled_type }) => {
            let after = integrator.on_bsdf_sample(st, isect, f, wi, pdf, sampled_type);
            if !(after.phase is Done) && !(after.phase is Subsurface) {
                lemma_roulette_within_depth(
                    integrator,
                    PathState {
                        beta: st.beta.times(
                            throughput_weight(f, magnitude(wi.dot(isect.shading.n)), pdf),
                        ),
                        specular_bounce: sampled_type & BSDF_SPECULAR != 0,
                        eta_scale: after.eta_scale,
                        ray: isect.common.ray_toward(wi),
                        ..st
                    },
                );
            }
        },
        (PathPhase::Subsurface(_), PathEvent::Subsurface { s, pdf, exit }) => {
            lemma_roulette_within_depth(
                integrator,
                PathState { beta: st.beta.times(s.divided(pdf)), ..st },
            );
        },
        (PathPhase::ExitDirectLight(pi), PathEvent::DirectLight(ld)) => {
            lemma_roulette_within_depth(integrator, st.contribute(ld));
        },
        (PathPhase::ExitBsdfSample(pi), PathEvent::BsdfSample { f, wi, pdf, sampled_type }) => {
            lemma_roulette_within_depth(
                integrator,
                PathState {
                    beta: st.beta.times(
                        throughput_weight(f, magnitude(wi.dot(pi.shading.n)), pdf),
                    ),
                    specular_bounce: sampled_type & BSDF_SPECULAR != 0,
                    ray: pi.common.ray_toward(wi),
                    ..st
                },
            );
        },
        (PathPhase::Roulette { q }, PathEvent::Uniform(u)) => {
            lemma_roulette_within_depth(
                integrator,
                PathState { beta: st.beta.divided(fx(ONE - q)), ..st },
            );
        },
        _ => {},
    }
}

/// Gathering radiance changes nothing but the radiance.
pub proof fn lemma_gather_keeps_bounces(st: PathState, les: Seq<Spectrum>)
    ensures
        st.gather(les) == (PathState { l: st.gather(les).l, ..st }),
    decreases les.len(),
{
    if les.len() > 0 {
        lemma_gather_keeps_bounces(st, les.drop_last());
    }
}

/// The radiance that a path has gathered never decreases, in any channel, whatever the
/// answers.
pub proof fn lemma_radiance_never_decreases(
    integrator: PathIntegrator,
    st: PathState,
    event: PathEvent,
    scene: Scene,
)
    requires
        st.wf(),
    ensures
        integrator.next(st, event, scene).l.r >= st.l.r,
        integrator.next(st, event, scene).l.g >= st.l.g,
        integrator.next(st, event, scene).l.b >= st.l.b,
{
    match (st.phase, event) {
        (PathPhase::Intersection, PathEvent::Miss { infinite_le }) => {
            if all_valid(infinite_le@) {
                lemma_gather_grows(st, infinite_le@);
            }
        },
        (PathPhase::Intersection, PathEvent::Hit(isect)) => {
            let le = isect.emitted(st.ray.d.negated(), scene.primitives@);
            if le.is_valid() {
                lemma_contribution_grows(st, le);
            }
        },
        (PathPhase::DirectLight(_), PathEvent::DirectLight(ld)) => {
            if ld.is_valid() {
                lemma_contribution_grows(st, ld);
            }
        },
        (PathPhase::ExitDirectLight(_), PathEvent::DirectLight(ld)) => {
            if ld.is_valid() {
                lemma_contribution_grows(st, ld);
            }
        },
        _ => {},
    }
}

/// Adding radiance without negative channels does not lower any channel of the radiance.
pub proof fn lemma_contribution_grows(st: PathState, x: Spectrum)
    requires
        st.wf(),
        x.is_valid(),
    ensures
        st.contribute(x).wf(),
        st.contribute(x).l.r >= st.l.r,
        st.contribute(x).l.g >= st.l.g,
        st.contribute(x).l.b >= st.l.b,
{
    lemma_contribution_is_valid(st, x);
    lemma_product_sign(st.beta.r as int, x.r as int);
    lemma_product_sign(st.beta.g as int, x.g as int);
    lemma_product_sign(st.beta.b as int, x.b as int);
}

/// Gathering radiance without negative channels does not lower any channel of the radiance.
pub proof fn lemma_gather_grows(st: PathState, les: Seq<Spectrum>)
    requires
        st.wf(),
        all_valid(les),
    ensures
        st.gather(les).wf(),
        st.gather(les).l.r >= st.l.r,
        st.gather(les).l.g >= st.l.g,
        st.gather(les).l.b >= st.l.b,
    decreases les.len(),
{
    if les.len() > 0 {
        assert(all_valid(les.drop_last())) by {
            assert forall|i: int| 0 <= i < les.drop_last().len() implies (
            #[trigger] les.drop_last()[i]).is_valid() by {
                assert(les[i].is_valid());
            }
        }
        lemma_gather_grows(st, les.drop_last());
        lemma_contribution_grows(st.gather(les.drop_last()), les.last());
    }
}

} // verus!
