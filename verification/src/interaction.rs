//! Interactions: a point where a ray hit a surface or scattered in a medium, with the
//! local geometry of the surface, the rays that leave the point and the differentials of
//! the point from pixel to pixel.

use crate::fixed::{
    lemma_quot_away_reaches, lemma_quot_remainder, magnitude, quot, quot_away, wide_quot,
    Fixed, FIXED_MAX, ONE,
};
use crate::geometry::{
    error_reach, lemma_normalized_is_unit, nrm_faceforward,
    offset_ray_origin, pnt3_offset_ray_origin, ray_offset, vec3_add, vec3_component, vec3_cross,
    vec3_dot, vec3_neg, vec3_normalize, vec3_scale, vec3_sub, Axis, Normal3, Point2, Point3, Ray,
    Vector3, ONE_SQUARED,
};
use crate::medium::{MediumId, MediumInterface, PhaseId};
use crate::primitive::{
    lookup_primitive, primitive_at, BssrdfId, Primitive, PrimitiveId, Shape,
};
use crate::reflection::{Bsdf, TransportMode};
use crate::spectrum::Spectrum;
use crate::transform::{is_finite, linear_solution, solve_linear_system_2x2, wide_is_finite};
use vstd::prelude::*;

verus! {

/// How far short of its target a shadow ray stops.
pub const SHADOW_EPSILON: Fixed = 7;

/// What every interaction offers: the point, its error bound, the directions, the time and
/// the media, and rays that leave the point.
pub trait Interaction {
    /// The data that all interactions share.
    spec fn common_data(&self) -> InteractionCommon;

    /// The scattering function at the point, if there is one.
    spec fn attached_bsdf(&self) -> Option<Bsdf>;

    /// The shading normal at the point, if there is one.
    spec fn shading_normal(&self) -> Option<Normal3>;

    /// The phase function at the point, if there is one.
    spec fn attached_phase(&self) -> Option<PhaseId>;

    /// Whether the interaction lies on a surface: it has a normal.
    fn is_surface_interaction(&self) -> (r: bool)
        ensures
            r == (self.common_data().n != Vector3::zero()),
    ;

    /// Whether the interaction lies inside a medium: it has no normal.
    fn is_medium_interaction(&self) -> (r: bool)
        ensures
            r == (self.common_data().n == Vector3::zero()),
    ;

    /// The ray that leaves the point in the direction `d`.
    fn spawn_ray(&self, d: &Vector3) -> (r: Ray)
        ensures
            r == self.common_data().ray_toward(*d),
    ;

    fn get_common(&self) -> (r: &InteractionCommon)
        ensures
            *r == self.common_data(),
    ;

    fn get_p(&self) -> (r: &Point3)
        ensures
            *r == self.common_data().p,
    ;

    fn get_time(&self) -> (r: Fixed)
        ensures
            r == self.common_data().time,
    ;

    fn get_p_error(&self) -> (r: &Vector3)
        ensures
            *r == self.common_data().p_error,
    ;

    fn get_wo(&self) -> (r: &Vector3)
        ensures
            *r == self.common_data().wo,
    ;

    fn get_n(&self) -> (r: &Normal3)
        ensures
            *r == self.common_data().n,
    ;

    fn get_medium_interface(&self) -> (r: Option<MediumInterface>)
        ensures
            r == self.common_data().medium_interface,
    ;

    fn get_bsdf(&self) -> (r: Option<&Bsdf>)
        ensures
            match r {
                Some(b) => self.attached_bsdf() == Some(*b),
                None => self.attached_bsdf().is_none(),
            },
    ;

    fn get_shading_n(&self) -> (r: Option<&Normal3>)
        ensures
            match r {
                Some(n) => self.shading_normal() == Some(*n),
                None => self.shading_normal().is_none(),
            },
    ;

    fn get_phase(&self) -> (r: Option<PhaseId>)
        ensures
            r == self.attached_phase(),
    ;
}

/// The data that all interactions share.
#[derive(Clone, Copy, Debug, PartialEq, Eq)]
pub struct InteractionCommon {
    /// The point of the interaction.
    pub p: Point3,
    pub time: Fixed,
    /// The half-widths of a box around `p` that holds the true point.
    pub p_error: Vector3,
    /// The direction back along the incoming ray.
    pub wo: Vector3,
    /// The surface normal; zero inside a medium.
    pub n: Normal3,
    pub medium_interface: Option<MediumInterface>,
}

impl InteractionCommon {
    /// The medium on the side of the surface that `w` points to: the outside one where `w`
    /// and the normal make an acute angle, the inside one otherwise.
    pub open spec fn medium_toward(self, w: Vector3) -> Option<MediumId> {
        match self.medium_interface {
            Some(mi) => if w.dot(self.n) > 0 {
                mi.outside
            } else {
                mi.inside
            },
            None => None,
        }
    }

    /// The origin of a ray that leaves toward `w`.
    pub open spec fn origin_toward(self, w: Vector3) -> Point3 {
        offset_ray_origin(self.p, self.p_error, self.n, w)
    }

    /// The unbounded ray that leaves the point in the direction `d`.
    pub open spec fn ray_toward(self, d: Vector3) -> Ray {
        Ray {
            o: self.origin_toward(d),
            d,
            t_max: FIXED_MAX,
            time: self.time,
            differential: None,
            medium: self.medium_toward(d),
        }
    }

    /// The ray from the point that stops just short of the point `target`.
    pub open spec fn ray_to_point(self, target: Point3) -> Ray {
        let d = target.minus(self.p);
        Ray {
            o: self.origin_toward(d),
            d,
            t_max: (ONE - SHADOW_EPSILON) as Fixed,
            time: self.time,
            differential: None,
            medium: self.medium_toward(d),
        }
    }

    /// The ray from the point that stops just short of the interaction `it`, with both ends
    /// moved off their surfaces.
    pub open spec fn ray_to(self, it: InteractionCommon) -> Ray {
        let origin = self.origin_toward(it.p.minus(self.p));
        let target = it.origin_toward(origin.minus(it.p));
        let d = target.minus(origin);
        Ray {
            o: origin,
            d,
            t_max: (ONE - SHADOW_EPSILON) as Fixed,
            time: self.time,
            differential: None,
            medium: self.medium_toward(d),
        }
    }

    /// The unbounded ray that leaves the point in the direction `d`.
    pub fn spawn_ray(&self, d: &Vector3) -> (r: Ray)
        ensures
            r == self.ray_toward(*d),
    {
        let o: Point3 = pnt3_offset_ray_origin(&self.p, &self.p_error, &self.n, d);
        Ray {
            o,
            d: *d,
            t_max: FIXED_MAX,
            time: self.time,
            differential: None,
            medium: self.get_medium(d),
        }
    }

    /// The ray from the point that stops just short of the point `target`.
    pub fn spawn_ray_to_pnt(&self, target: &Point3) -> (r: Ray)
        ensures
            r == self.ray_to_point(*target),
    {
        let d: Vector3 = vec3_sub(target, &self.p);
        let origin: Point3 = pnt3_offset_ray_origin(&self.p, &self.p_error, &self.n, &d);
        Ray {
            o: origin,
            d,
            t_max: ONE - SHADOW_EPSILON,
            time: self.time,
            differential: None,
            medium: self.get_medium(&d),
        }
    }

    /// The ray from the point that stops just short of the interaction `it`.
    pub fn spawn_ray_to(&self, it: &InteractionCommon) -> (r: Ray)
        ensures
            r == self.ray_to(*it),
    {
        let toward: Vector3 = vec3_sub(&it.p, &self.p);
        let origin: Point3 = pnt3_offset_ray_origin(&self.p, &self.p_error, &self.n, &toward);
        let back: Vector3 = vec3_sub(&origin, &it.p);
        let target: Point3 = pnt3_offset_ray_origin(&it.p, &it.p_error, &it.n, &back);
        let d: Vector3 = vec3_sub(&target, &origin);
        Ray {
            o: origin,
            d,
            t_max: ONE - SHADOW_EPSILON,
            time: self.time,
            differential: None,
            medium: self.get_medium(&d),
        }
    }

    /// The medium on the side of the surface that `w` points to.
    pub fn get_medium(&self, w: &Vector3) -> (r: Option<MediumId>)
        ensures
            r == self.medium_toward(*w),
    {
        if vec3_dot(w, &self.n) > 0 {
            if let Some(ref medium_interface) = self.medium_interface {
                medium_interface.get_outside()
            } else {
                None
            }
        } else if let Some(ref medium_interface) = self.medium_interface {
            medium_interface.get_inside()
        } else {
            None
        }
    }
}

/// The shading geometry of a surface point: a normal and partial derivatives that may
/// differ from the true ones.
#[derive(Clone, Copy, Debug, PartialEq, Eq, Structural)]
pub struct Shading {
    pub n: Normal3,
    pub dpdu: Vector3,
    pub dpdv: Vector3,
    pub dndu: Normal3,
    pub dndv: Normal3,
}

/// A point inside a participating medium where light scatters.
#[derive(Clone, Copy, Debug, PartialEq, Eq)]
pub struct MediumInteraction {
    pub common: InteractionCommon,
    pub phase: Option<PhaseId>,
}

impl MediumInteraction {
    /// The interaction at `p` inside `medium`: it has no normal and no error bound, and the
    /// medium lies on both of its sides.
    pub open spec fn created(
        p: Point3,
        wo: Vector3,
        time: Fixed,
        medium: Option<MediumId>,
        phase: Option<PhaseId>,
    ) -> MediumInteraction {
        MediumInteraction {
            common: InteractionCommon {
                p,
                time,
                p_error: Vector3::zero(),
                wo,
                n: Vector3::zero(),
                medium_interface: match medium {
                    Some(m) => Some(MediumInterface { inside: Some(m), outside: Some(m) }),
                    None => None,
                },
            },
            phase,
        }
    }

    /// The interaction at `p` inside `medium`.
    pub fn new(
        p: &Point3,
        wo: &Vector3,
        time: Fixed,
        medium: Option<MediumId>,
        phase: Option<PhaseId>,
    ) -> (r: Self)
        ensures
            r == Self::created(*p, *wo, time, medium, phase),
    {
        let mut common: InteractionCommon = InteractionCommon {
            p: *p,
            time,
            p_error: Vector3 { x: 0, y: 0, z: 0 },
            wo: *wo,
            n: Vector3 { x: 0, y: 0, z: 0 },
            medium_interface: None,
        };
        if let Some(m) = medium {
            common.medium_interface = Some(MediumInterface::new(Some(m), Some(m)));
            MediumInteraction { common, phase }
        } else {
            MediumInteraction { common, phase }
        }
    }

    /// The medium on the side that `w` points to.
    pub fn get_medium(&self, w: &Vector3) -> (r: Option<MediumId>)
        ensures
            r == self.common.medium_toward(*w),
    {
        if vec3_dot(w, &self.common.n) > 0 {
            if let Some(ref medium_interface) = self.common.medium_interface {
                medium_interface.outside
            } else {
                None
            }
        } else if let Some(ref medium_interface) = self.common.medium_interface {
            medium_interface.inside
        } else {
            None
        }
    }

    /// Whether the interaction has a phase function.
    pub fn is_valid(&self) -> (r: bool)
        ensures
            r == self.phase.is_some(),
    {
        self.phase.is_some()
    }

    /// The phase function at the point.
    pub fn get_phase(&self) -> (r: Option<PhaseId>)
        ensures
            r == self.phase,
    {
        self.phase
    }
}

/// Whether a vector is the zero vector.
pub fn vec3_is_zero(v: &Vector3) -> (r: bool)
    ensures
        r == (*v == Vector3::zero()),
{
    v.x == 0 && v.y == 0 && v.z == 0
}

impl Interaction for MediumInteraction {
    open spec fn common_data(&self) -> InteractionCommon {
        self.common
    }

    open spec fn attached_bsdf(&self) -> Option<Bsdf> {
        None
    }

    open spec fn shading_normal(&self) -> Option<Normal3> {
        None
    }

    open spec fn attached_phase(&self) -> Option<PhaseId> {
        self.phase
    }

    fn is_surface_interaction(&self) -> (r: bool) {
        !vec3_is_zero(&self.common.n)
    }

    fn is_medium_interaction(&self) -> (r: bool) {
        !self.is_surface_interaction()
    }

    fn spawn_ray(&self, d: &Vector3) -> (r: Ray) {
        let o: Point3 = pnt3_offset_ray_origin(
            &self.common.p,
            &self.common.p_error,
            &self.common.n,
            d,
        );
        Ray {
            o,
            d: *d,
            t_max: FIXED_MAX,
            time: self.common.time,
            differential: None,
            medium: self.get_medium(d),
        }
    }

    fn get_common(&self) -> (r: &InteractionCommon) {
        &self.common
    }

    fn get_p(&self) -> (r: &Point3) {
        &self.common.p
    }

    fn get_time(&self) -> (r: Fixed) {
        self.common.time
    }

    fn get_p_error(&self) -> (r: &Vector3) {
        &self.common.p_error
    }

    fn get_wo(&self) -> (r: &Vector3) {
        &self.common.wo
    }

    fn get_n(&self) -> (r: &Normal3) {
        &self.common.n
    }

    fn get_medium_interface(&self) -> (r: Option<MediumInterface>) {
        self.common.medium_interface
    }

    fn get_bsdf(&self) -> (r: Option<&Bsdf>) {
        None
    }

    fn get_shading_n(&self) -> (r: Option<&Normal3>) {
        None
    }

    fn get_phase(&self) -> (r: Option<PhaseId>) {
        self.phase
    }
}

/// How a surface point and its texture coordinates change from one pixel to the next.
#[derive(Clone, Copy, Debug, PartialEq, Eq, Structural)]
pub struct Differentials {
    pub dpdx: Vector3,
    pub dpdy: Vector3,
    pub dudx: Fixed,
    pub dvdx: Fixed,
    pub dudy: Fixed,
    pub dvdy: Fixed,
}

impl Differentials {
    /// No change at all.
    pub open spec fn zero() -> Differentials {
        Differentials {
            dpdx: Vector3::zero(),
            dpdy: Vector3::zero(),
            dudx: 0,
            dvdx: 0,
            dudy: 0,
            dvdy: 0,
        }
    }
}

/// Whether the normals of a shape are turned round: its orientation is reversed or its
/// transformation swaps handedness, but not both.
pub open spec fn flips_normal(shape: Option<Shape>) -> bool {
    match shape {
        Some(s) => s.reverse_orientation != s.transform_swaps_handedness,
        None => false,
    }
}

/// The unit normal of the surface spanned by `dpdu` and `dpdv`, turned round where the
/// shape asks for it.
pub open spec fn surface_normal(dpdu: Vector3, dpdv: Vector3, shape: Option<Shape>) -> Normal3 {
    let n = dpdu.cross(dpdv).normalized();
    if flips_normal(shape) {
        n.negated()
    } else {
        n
    }
}

/// The parameter at which the ray from `o` along `d` meets the plane through `p` with
/// normal `n`, rounded toward zero; nothing where the ray runs along the plane or the
/// parameter is not finite.
pub open spec fn plane_hit(n: Normal3, p: Point3, o: Point3, d: Vector3) -> Option<Fixed> {
    let t = quot((n.dot(p) - n.dot(o)) * ONE, n.dot(d));
    if n.dot(d) == 0 || !is_finite(t) {
        None
    } else {
        Some(t as Fixed)
    }
}

/// The two world axes onto which the tangent plane with normal `n` projects best: those
/// other than the axis along which the normal is longest.
pub open spec fn projection_axes(n: Normal3) -> (Axis, Axis) {
    let ax = if n.x < 0 { -n.x } else { n.x as int };
    let ay = if n.y < 0 { -n.y } else { n.y as int };
    let az = if n.z < 0 { -n.z } else { n.z as int };
    if ax > ay && ax > az {
        (Axis::Y, Axis::Z)
    } else if ay > az {
        (Axis::X, Axis::Z)
    } else {
        (Axis::X, Axis::Y)
    }
}

/// The change `(du, dv)` of the texture coordinates that moves the surface point by
/// `delta`, read off along the two given axes; zero where it cannot be found.
pub open spec fn uv_change(dpdu: Vector3, dpdv: Vector3, axes: (Axis, Axis), delta: Vector3) -> (
    Fixed,
    Fixed,
) {
    match linear_solution(
        dpdu.component(axes.0),
        dpdv.component(axes.0),
        dpdu.component(axes.1),
        dpdv.component(axes.1),
        delta.component(axes.0),
        delta.component(axes.1),
    ) {
        Some(s) => s,
        None => (0, 0),
    }
}

/// The parameter at which a ray meets the tangent plane of a surface point.
fn plane_hit_parameter(n: &Normal3, p: &Point3, o: &Point3, d: &Vector3) -> (r: Option<Fixed>)
    ensures
        r == plane_hit(*n, *p, *o, *d),
{
    let den: i128 = vec3_dot(n, d);
    if den == 0 {
        return None;
    }
    let num: i128 = (vec3_dot(n, p) - vec3_dot(n, o)) * 65536;
    let t: i128 = wide_quot(num, den);
    if !wide_is_finite(t) {
        None
    } else {
        Some(t as i32)
    }
}

/// The two world axes onto which the tangent plane projects best.
fn choose_projection_axes(n: &Normal3) -> (r: (Axis, Axis))
    ensures
        r == projection_axes(*n),
{
    let ax: i64 = if n.x < 0 { -(n.x as i64) } else { n.x as i64 };
    let ay: i64 = if n.y < 0 { -(n.y as i64) } else { n.y as i64 };
    let az: i64 = if n.z < 0 { -(n.z as i64) } else { n.z as i64 };
    if ax > ay && ax > az {
        (Axis::Y, Axis::Z)
    } else if ay > az {
        (Axis::X, Axis::Z)
    } else {
        (Axis::X, Axis::Y)
    }
}

/// The change of the texture coordinates that moves the surface point by `delta`.
fn solve_uv_change(dpdu: &Vector3, dpdv: &Vector3, axes: (Axis, Axis), delta: &Vector3) -> (r: (
    Fixed,
    Fixed,
))
    ensures
        r == uv_change(*dpdu, *dpdv, axes, *delta),
{
    match solve_linear_system_2x2(
        vec3_component(dpdu, axes.0),
        vec3_component(dpdv, axes.0),
        vec3_component(dpdu, axes.1),
        vec3_component(dpdv, axes.1),
        vec3_component(delta, axes.0),
        vec3_component(delta, axes.1),
    ) {
        Some(s) => s,
        None => (0, 0),
    }
}

/// A point on a surface where a ray hit, with the local geometry of the surface.
#[derive(Clone, Copy, Debug, PartialEq, Eq)]
pub struct SurfaceInteraction {
    pub common: InteractionCommon,
    /// The texture coordinates of the point.
    pub uv: Point2,
    pub dpdu: Vector3,
    pub dpdv: Vector3,
    pub dndu: Normal3,
    pub dndv: Normal3,
    pub dpdx: Vector3,
    pub dpdy: Vector3,
    pub dudx: Fixed,
    pub dvdx: Fixed,
    pub dudy: Fixed,
    pub dvdy: Fixed,
    /// The primitive that was hit.
    pub primitive: Option<PrimitiveId>,
    pub shading: Shading,
    /// The scattering function, once it has been computed.
    pub bsdf: Option<Bsdf>,
    pub bssrdf: Option<BssrdfId>,
    pub shape: Option<Shape>,
}

impl SurfaceInteraction {
    /// The interaction at a surface point as an intersection test reports it: the geometric
    /// normal is the unit normal of `dpdu` and `dpdv`, the shading geometry starts as the
    /// true geometry, `wo` is brought to unit length, and nothing is attached yet.
    pub open spec fn created(
        p: Point3,
        p_error: Vector3,
        uv: Point2,
        wo: Vector3,
        dpdu: Vector3,
        dpdv: Vector3,
        dndu: Normal3,
        dndv: Normal3,
        time: Fixed,
        sh: Option<Shape>,
    ) -> SurfaceInteraction {
        SurfaceInteraction {
            common: InteractionCommon {
                p,
                time,
                p_error,
                wo: wo.normalized(),
                n: surface_normal(dpdu, dpdv, sh),
                medium_interface: None,
            },
            uv,
            dpdu,
            dpdv,
            dndu,
            dndv,
            dpdx: Vector3::zero(),
            dpdy: Vector3::zero(),
            dudx: 0,
            dvdx: 0,
            dudy: 0,
            dvdy: 0,
            primitive: None,
            shading: Shading { n: surface_normal(dpdu, dpdv, sh), dpdu, dpdv, dndu, dndv },
            bsdf: None,
            bssrdf: None,
            shape: sh,
        }
    }

    /// Whether the normals are as they have to be: neither exceeds one in any component, and
    /// the geometric normal and the shading normal do not lie in opposite hemispheres.
    pub open spec fn wf(self) -> bool {
        &&& self.common.n.is_bounded()
        &&& self.shading.n.is_bounded()
        &&& self.common.n.dot(self.shading.n) >= 0
    }

    /// The differentials of the point for a ray: where the ray carries its two neighbours
    /// and both meet the tangent plane at a finite parameter, the offsets of the two hits
    /// from the point and the changes of the texture coordinates that produce them; zero
    /// otherwise.
    pub open spec fn differentials(self, ray: Ray) -> Differentials {
        match ray.differential {
            Some(diff) => {
                let n = self.common.n;
                let p = self.common.p;
                match (
                    plane_hit(n, p, diff.rx_origin, diff.rx_direction),
                    plane_hit(n, p, diff.ry_origin, diff.ry_direction),
                ) {
                    (Some(tx), Some(ty)) => {
                        let px = diff.rx_origin.plus(diff.rx_direction.scaled(tx));
                        let py = diff.ry_origin.plus(diff.ry_direction.scaled(ty));
                        let dpdx = px.minus(p);
                        let dpdy = py.minus(p);
                        let axes = projection_axes(n);
                        let x = uv_change(self.dpdu, self.dpdv, axes, dpdx);
                        let y = uv_change(self.dpdu, self.dpdv, axes, dpdy);
                        Differentials { dpdx, dpdy, dudx: x.0, dvdx: x.1, dudy: y.0, dvdy: y.1 }
                    },
                    _ => Differentials::zero(),
                }
            },
            None => Differentials::zero(),
        }
    }

    /// The interaction with its differentials replaced.
    pub open spec fn with_differentials(self, d: Differentials) -> SurfaceInteraction {
        SurfaceInteraction {
            dpdx: d.dpdx,
            dpdy: d.dpdy,
            dudx: d.dudx,
            dvdx: d.dvdx,
            dudy: d.dudy,
            dvdy: d.dvdy,
            ..self
        }
    }

    /// The interaction with new shading geometry. The shading normal is the unit normal of
    /// the new derivatives, turned round where the shape asks for it. Where the new
    /// geometry has the say on orientation, the geometric normal is turned to its side;
    /// otherwise the shading normal is turned to the side of the geometric normal.
    pub open spec fn with_shading_geometry(
        self,
        dpdus: Vector3,
        dpdvs: Vector3,
        dndus: Normal3,
        dndvs: Normal3,
        orientation_is_authoritative: bool,
    ) -> SurfaceInteraction {
        let ns = surface_normal(dpdus, dpdvs, self.shape);
        SurfaceInteraction {
            common: InteractionCommon {
                n: if orientation_is_authoritative {
                    self.common.n.facing(ns)
                } else {
                    self.common.n
                },
                ..self.common
            },
            shading: Shading {
                n: if orientation_is_authoritative {
                    ns
                } else {
                    ns.facing(self.common.n)
                },
                dpdu: dpdus,
                dpdv: dpdvs,
                dndu: dndus,
                dndv: dndvs,
            },
            ..self
        }
    }

    /// The radiance that the surface emits toward `w`: that of the light on the primitive
    /// that was hit, or none where no light is there.
    pub open spec fn emitted(self, w: Vector3, primitives: Seq<Primitive>) -> Spectrum {
        match primitive_at(primitives, self.primitive) {
            Some(prim) => match prim.area_light {
                Some(light) => light.emitted(self.common.n, w),
                None => Spectrum::uniform(0),
            },
            None => Spectrum::uniform(0),
        }
    }

    /// The interaction with the scattering functions of the primitive that was hit, and the
    /// differentials for the ray.
    pub open spec fn with_scattering_functions(
        self,
        ray: Ray,
        primitives: Seq<Primitive>,
        allow_multiple_lobes: bool,
        mode: TransportMode,
    ) -> SurfaceInteraction {
        let s = self.with_differentials(self.differentials(ray));
        match primitive_at(primitives, self.primitive) {
            Some(prim) => SurfaceInteraction {
                bsdf: prim.bsdf(mode, allow_multiple_lobes),
                bssrdf: prim.bssrdf(),
                ..s
            },
            None => s,
        }
    }

    /// The interaction at a surface point as an intersection test reports it.
    pub fn new(
        p: &Point3,
        p_error: &Vector3,
        uv: Point2,
        wo: &Vector3,
        dpdu: &Vector3,
        dpdv: &Vector3,
        dndu: &Normal3,
        dndv: &Normal3,
        time: Fixed,
        sh: Option<Shape>,
    ) -> (r: Self)
        ensures
            r == Self::created(*p, *p_error, uv, *wo, *dpdu, *dpdv, *dndu, *dndv, time, sh),
            r.wf(),
            r.shading.n == r.common.n,
            r.common.wo.is_bounded(),
            dpdu.cross(*dpdv) != Vector3::zero() ==> r.common.n.is_unit(),
            *wo != Vector3::zero() ==> r.common.wo.is_unit(),
    {
        proof {
            lemma_normalized_is_unit(dpdu.cross(*dpdv));
            lemma_normalized_is_unit(*wo);
            lemma_negated_length(dpdu.cross(*dpdv).normalized());
            lemma_zero_length_vector(dpdu.cross(*dpdv));
            lemma_zero_length_vector(*wo);
            lemma_length_is_not_negative(dpdu.cross(*dpdv).normalized());
            lemma_length_is_not_negative(dpdu.cross(*dpdv).normalized().negated());
        }
        let nv: Vector3 = vec3_normalize(&vec3_cross(dpdu, dpdv));
        let mut n: Normal3 = Normal3 { x: nv.x, y: nv.y, z: nv.z };
        // the shading geometry starts out as the true geometry
        let mut shading: Shading = Shading {
            n,
            dpdu: *dpdu,
            dpdv: *dpdv,
            dndu: *dndu,
            dndv: *dndv,
        };
        if let Some(shape) = sh {
            // the shape may ask for its normals to be turned round
            if shape.get_reverse_orientation() ^ shape.get_transform_swaps_handedness() {
                n = vec3_neg(&n);
                shading.n = vec3_neg(&shading.n);
            }
        }
        let common: InteractionCommon = InteractionCommon {
            p: *p,
            time,
            p_error: *p_error,
            wo: vec3_normalize(wo),
            n,
            medium_interface: None,
        };
        SurfaceInteraction {
            common,
            uv,
            dpdu: *dpdu,
            dpdv: *dpdv,
            dndu: *dndu,
            dndv: *dndv,
            dpdx: Vector3 { x: 0, y: 0, z: 0 },
            dpdy: Vector3 { x: 0, y: 0, z: 0 },
            dudx: 0,
            dvdx: 0,
            dudy: 0,
            dvdy: 0,
            primitive: None,
            shading,
            bsdf: None,
            bssrdf: None,
            shape: sh,
        }
    }

    /// The medium on the side of the surface that `w` points to.
    pub fn get_medium(&self, w: &Vector3) -> (r: Option<MediumId>)
        ensures
            r == self.common.medium_toward(*w),
    {
        if vec3_dot(w, &self.common.n) > 0 {
            if let Some(ref medium_interface) = self.common.medium_interface {
                medium_interface.outside
            } else {
                None
            }
        } else if let Some(ref medium_interface) = self.common.medium_interface {
            medium_interface.inside
        } else {
            None
        }
    }

    /// Replaces the shading geometry. Afterwards the geometric normal and the shading
    /// normal lie in the same hemisphere.
    pub fn set_shading_geometry(
        &mut self,
        dpdus: &Vector3,
        dpdvs: &Vector3,
        dndus: &Normal3,
        dndvs: &Normal3,
        orientation_is_authoritative: bool,
    )
        ensures
            *final(self) == old(self).with_shading_geometry(
                *dpdus,
                *dpdvs,
                *dndus,
                *dndvs,
                orientation_is_authoritative,
            ),
            final(self).shading.n.is_bounded(),
            !orientation_is_authoritative || old(self).common.n.negatable()
                ==> final(self).common.n.dot(final(self).shading.n) >= 0,
            old(self).common.n.is_bounded() ==> final(self).wf(),
    {
        // the normal of the new shading frame
        let mut ns: Normal3 = vec3_normalize(&vec3_cross(dpdus, dpdvs));
        if let Some(shape) = self.shape {
            if shape.get_reverse_orientation() ^ shape.get_transform_swaps_handedness() {
                ns = vec3_neg(&ns);
            }
        }
        proof {
            if self.common.n.negatable() {
                lemma_facing_agrees(self.common.n, ns);
            }
            lemma_facing_agrees(ns, self.common.n);
            lemma_dot_commutes(ns.facing(self.common.n), self.common.n);
        }
        if orientation_is_authoritative {
            self.common.n = nrm_faceforward(&self.common.n, &ns);
            self.shading.n = ns;
        } else {
            self.shading.n = nrm_faceforward(&ns, &self.common.n);
        }
        // the derivatives are taken over as they are
        self.shading.dpdu = *dpdus;
        self.shading.dpdv = *dpdvs;
        self.shading.dndu = *dndus;
        self.shading.dndv = *dndvs;
    }

    /// Computes the differentials for the ray and attaches the scattering functions of the
    /// primitive that was hit.
    pub fn compute_scattering_functions(
        &mut self,
        ray: &Ray,
        primitives: &Vec<Primitive>,
        allow_multiple_lobes: bool,
        mode: TransportMode,
    )
        ensures
            *final(self) == old(self).with_scattering_functions(
                *ray,
                primitives@,
                allow_multiple_lobes,
                mode,
            ),
            old(self).wf() ==> final(self).wf(),
    {
        self.compute_differentials(ray);
        if let Some(primitive) = lookup_primitive(primitives, self.primitive) {
            let (bsdf, bssrdf) = primitive.scattering_functions(mode, allow_multiple_lobes);
            self.bsdf = bsdf;
            self.bssrdf = bssrdf;
        }
    }

    /// The differentials of the point for a ray.
    pub fn ray_differentials(&self, ray: &Ray) -> (r: Differentials)
        ensures
            r == self.differentials(*ray),
    {
        let none: Differentials = Differentials {
            dpdx: Vector3 { x: 0, y: 0, z: 0 },
            dpdy: Vector3 { x: 0, y: 0, z: 0 },
            dudx: 0,
            dvdx: 0,
            dudy: 0,
            dvdy: 0,
        };
        if let Some(ref diff) = ray.differential {
            // where the two neighbouring rays meet the tangent plane
            let tx: Option<Fixed> = plane_hit_parameter(
                &self.common.n,
                &self.common.p,
                &diff.rx_origin,
                &diff.rx_direction,
            );
            let ty: Option<Fixed> = plane_hit_parameter(
                &self.common.n,
                &self.common.p,
                &diff.ry_origin,
                &diff.ry_direction,
            );
            match (tx, ty) {
                (Some(tx), Some(ty)) => {
                    let px: Point3 = vec3_add(&diff.rx_origin, &vec3_scale(&diff.rx_direction, tx));
                    let py: Point3 = vec3_add(&diff.ry_origin, &vec3_scale(&diff.ry_direction, ty));
                    let dpdx: Vector3 = vec3_sub(&px, &self.common.p);
                    let dpdy: Vector3 = vec3_sub(&py, &self.common.p);
                    // the two axes along which the tangent plane is seen best
                    let axes: (Axis, Axis) = choose_projection_axes(&self.common.n);
                    // the changes of (u, v) that lead to the two neighbouring hits
                    let x: (Fixed, Fixed) = solve_uv_change(&self.dpdu, &self.dpdv, axes, &dpdx);
                    let y: (Fixed, Fixed) = solve_uv_change(&self.dpdu, &self.dpdv, axes, &dpdy);
                    Differentials { dpdx, dpdy, dudx: x.0, dvdx: x.1, dudy: y.0, dvdy: y.1 }
                },
                _ => none,
            }
        } else {
            none
        }
    }

    /// Recomputes the differentials of the point for a ray.
    pub fn compute_differentials(&mut self, ray: &Ray)
        ensures
            *final(self) == old(self).with_differentials(old(self).differentials(*ray)),
            old(self).wf() ==> final(self).wf(),
    {
        let d: Differentials = self.ray_differentials(ray);
        self.dpdx = d.dpdx;
        self.dpdy = d.dpdy;
        self.dudx = d.dudx;
        self.dvdx = d.dvdx;
        self.dudy = d.dudy;
        self.dvdy = d.dvdy;
    }

    /// The radiance that the surface emits toward `w`.
    pub fn le(&self, w: &Vector3, primitives: &Vec<Primitive>) -> (s: Spectrum)
        ensures
            s == self.emitted(*w, primitives@),
    {
        if let Some(primitive) = lookup_primitive(primitives, self.primitive) {
            if let Some(area_light) = primitive.get_area_light() {
                return area_light.l(&self.common.n, w);
            }
        }
        Spectrum::new(0)
    }
}

/// No vector has a negative length.
pub proof fn lemma_length_is_not_negative(v: Vector3)
    by (nonlinear_arith)
    ensures
        v.norm_squared() >= 0,
{
}

/// Only the zero vector has length zero.
pub proof fn lemma_zero_length_vector(v: Vector3)
    by (nonlinear_arith)
    ensures
        v.norm_squared() == 0 <==> v == Vector3::zero(),
{
}

/// A vector whose components can be negated exactly is as long as its opposite, and the
/// opposite of its opposite is the vector itself.
pub proof fn lemma_negated_length(v: Vector3)
    by (nonlinear_arith)
    requires
        v.negatable(),
    ensures
        v.negated().norm_squared() == v.norm_squared(),
        v.negated().negated() == v,
        v.is_bounded() ==> v.negated().is_bounded(),
{
}

/// Orientation convention: reversing the orientation of the shape alone, with the
/// handedness of its transformation as it was, turns the geometric normal and the shading
/// normal of a new surface interaction into their opposites. All else stays.
pub proof fn lemma_reverse_orientation_flips_normal(
    p: Point3,
    p_error: Vector3,
    uv: Point2,
    wo: Vector3,
    dpdu: Vector3,
    dpdv: Vector3,
    dndu: Normal3,
    dndv: Normal3,
    time: Fixed,
    shape: Shape,
)
    ensures
        ({
            let reversed = Shape { reverse_orientation: !shape.reverse_orientation, ..shape };
            let a = SurfaceInteraction::created(
                p,
                p_error,
                uv,
                wo,
                dpdu,
                dpdv,
                dndu,
                dndv,
                time,
                Some(shape),
            );
            let b = SurfaceInteraction::created(
                p,
                p_error,
                uv,
                wo,
                dpdu,
                dpdv,
                dndu,
                dndv,
                time,
                Some(reversed),
            );
            &&& b.shading.n == a.shading.n.negated()
            &&& b.common.n == a.common.n.negated()
            &&& b == SurfaceInteraction {
                common: InteractionCommon { n: b.common.n, ..a.common },
                shading: Shading { n: b.shading.n, ..a.shading },
                shape: Some(reversed),
                ..a
            }
        }),
{
    lemma_normalized_is_unit(dpdu.cross(dpdv));
    lemma_negated_length(dpdu.cross(dpdv).normalized());
}

/// Orientation convention, for new shading geometry that has the say on orientation:
/// reversing the orientation of the shape alone turns the shading normal into its opposite.
pub proof fn lemma_reverse_orientation_flips_shading_normal(
    s: SurfaceInteraction,
    shape: Shape,
    dpdus: Vector3,
    dpdvs: Vector3,
    dndus: Normal3,
    dndvs: Normal3,
)
    ensures
        ({
            let reversed = Shape { reverse_orientation: !shape.reverse_orientation, ..shape };
            let a = SurfaceInteraction { shape: Some(shape), ..s }.with_shading_geometry(
                dpdus,
                dpdvs,
                dndus,
                dndvs,
                true,
            );
            let b = SurfaceInteraction { shape: Some(reversed), ..s }.with_shading_geometry(
                dpdus,
                dpdvs,
                dndus,
                dndvs,
                true,
            );
            b.shading.n == a.shading.n.negated()
        }),
{
    lemma_normalized_is_unit(dpdus.cross(dpdvs));
    lemma_negated_length(dpdus.cross(dpdvs).normalized());
}

/// On which side of the plane through `p` with normal `n` the point `x` lies, and how far
/// from it: the exact dot product of the normal with the step from `p` to `x`.
pub open spec fn plane_side(n: Normal3, p: Point3, x: Point3) -> int {
    n.x * (x.x - p.x) + n.y * (x.y - p.y) + n.z * (x.z - p.z)
}

/// Whether the point `x` lies in the box of half-widths `e` around `p`.
pub open spec fn in_error_box(p: Point3, e: Vector3, x: Point3) -> bool {
    &&& -e.x <= x.x - p.x <= e.x
    &&& -e.y <= x.y - p.y <= e.y
    &&& -e.z <= x.z - p.z <= e.z
}

/// Two numbers on the same side of zero have a product that is not negative.
pub proof fn lemma_same_side(a: int, b: int)
    by (nonlinear_arith)
    ensures
        (a >= 0 && b >= 0) || (a <= 0 && b <= 0) ==> a * b >= 0,
        (a >= 0 && b <= 0) || (a <= 0 && b >= 0) ==> a * b <= 0,
{
}

/// A step of magnitude at most `e` counts at most `|a| * e` along `a`.
pub proof fn lemma_step_within(a: int, b: int, e: int)
    by (nonlinear_arith)
    requires
        -e <= b <= e,
    ensures
        -(magnitude(a) * e) <= a * b <= magnitude(a) * e,
        magnitude(a) * e >= 0,
{
}

/// One component of the step off the surface: along the normal it counts at least its
/// share of the reach.
pub proof fn lemma_offset_component(c: int, reach: int, k: int)
    requires
        reach >= 0,
        k > 0,
    ensures
        c * quot_away(c * reach, k) * k >= c * c * reach,
        c >= 0 ==> quot_away(c * reach, k) >= 0,
        c <= 0 ==> quot_away(c * reach, k) <= 0,
{
    let q = quot_away(c * reach, k);
    lemma_same_side(c, reach);
    lemma_quot_away_reaches(c * reach, k);
    assert(c * q * k >= c * c * reach) by (nonlinear_arith)
        requires
            c >= 0 ==> q * k >= c * reach,
            c <= 0 ==> q * k <= c * reach,
    ;
}

/// Spawned rays never meet their origin surface again. The origin of a ray that leaves a
/// surface point lies on the side of the tangent plane that the ray's direction points
/// to, or on the plane itself; so every later point of the ray, `o + (a / b) d` with
/// `a / b > 0`, lies strictly on that side.
pub proof fn lemma_spawned_ray_leaves_surface(it: InteractionCommon, d: Vector3, a: int, b: int)
    requires
        it.p_error.x >= 0 && it.p_error.y >= 0 && it.p_error.z >= 0,
        a > 0,
        b > 0,
    ensures
        d.dot(it.n) > 0 ==> plane_side(it.n, it.p, it.ray_toward(d).o) >= 0 && b * plane_side(
            it.n,
            it.p,
            it.ray_toward(d).o,
        ) + a * it.n.dot(d) > 0,
        d.dot(it.n) < 0 ==> plane_side(it.n, it.p, it.ray_toward(d).o) <= 0 && b * plane_side(
            it.n,
            it.p,
            it.ray_toward(d).o,
        ) + a * it.n.dot(d) < 0,
{
    let n = it.n;
    let o = it.ray_toward(d).o;
    let reach = error_reach(n, it.p_error);
    let k = ONE_SQUARED as int;
    lemma_step_within(n.x as int, it.p_error.x as int, it.p_error.x as int);
    lemma_step_within(n.y as int, it.p_error.y as int, it.p_error.y as int);
    lemma_step_within(n.z as int, it.p_error.z as int, it.p_error.z as int);
    lemma_offset_component(n.x as int, reach, k);
    lemma_offset_component(n.y as int, reach, k);
    lemma_offset_component(n.z as int, reach, k);
    lemma_same_side(n.x as int, o.x - it.p.x);
    lemma_same_side(n.y as int, o.y - it.p.y);
    lemma_same_side(n.z as int, o.z - it.p.z);
    lemma_dot_commutes(d, n);
    let side = plane_side(n, it.p, o);
    if d.dot(n) > 0 {
        assert(b * side + a * n.dot(d) > 0) by (nonlinear_arith)
            requires
                side >= 0,
                a > 0,
                b > 0,
                n.dot(d) > 0,
        ;
    }
    if d.dot(n) < 0 {
        assert(b * side + a * n.dot(d) < 0) by (nonlinear_arith)
            requires
                side <= 0,
                a > 0,
                b > 0,
                n.dot(d) < 0,
        ;
    }
}

/// The origin of a spawned ray lies outside the error box of its surface point, along the
/// normal: as long as the normal is a unit vector and the origin has not been stopped at
/// the end of the range, no point of the box lies further along the normal, on the side
/// that the ray leaves to, than the origin.
pub proof fn lemma_spawned_ray_clears_error_box(it: InteractionCommon, d: Vector3, x: Point3)
    requires
        it.p_error.x >= 0 && it.p_error.y >= 0 && it.p_error.z >= 0,
        it.n.is_unit(),
        in_error_box(it.p, it.p_error, x),
        it.ray_toward(d).o.x == it.p.x + ray_offset(it.n, it.p_error, d).0,
        it.ray_toward(d).o.y == it.p.y + ray_offset(it.n, it.p_error, d).1,
        it.ray_toward(d).o.z == it.p.z + ray_offset(it.n, it.p_error, d).2,
    ensures
        d.dot(it.n) >= 0 ==> plane_side(it.n, it.p, x) <= error_reach(it.n, it.p_error)
            <= plane_side(it.n, it.p, it.ray_toward(d).o),
        d.dot(it.n) < 0 ==> plane_side(it.n, it.p, it.ray_toward(d).o) <= -error_reach(
            it.n,
            it.p_error,
        ) <= plane_side(it.n, it.p, x),
{
    let n = it.n;
    let o = it.ray_toward(d).o;
    let reach = error_reach(n, it.p_error);
    let k = ONE_SQUARED as int;
    lemma_step_within(n.x as int, x.x - it.p.x, it.p_error.x as int);
    lemma_step_within(n.y as int, x.y - it.p.y, it.p_error.y as int);
    lemma_step_within(n.z as int, x.z - it.p.z, it.p_error.z as int);
    lemma_offset_component(n.x as int, reach, k);
    lemma_offset_component(n.y as int, reach, k);
    lemma_offset_component(n.z as int, reach, k);
    let qx = quot_away(n.x * reach, k);
    let qy = quot_away(n.y * reach, k);
    let qz = quot_away(n.z * reach, k);
    let along = n.x * qx + n.y * qy + n.z * qz;
    assert(along * k == n.x * qx * k + n.y * qy * k + n.z * qz * k) by (nonlinear_arith)
        requires
            along == n.x * qx + n.y * qy + n.z * qz,
    ;
    assert(n.norm_squared() * reach == n.x * n.x * reach + n.y * n.y * reach + n.z * n.z * reach)
        by (nonlinear_arith)
        requires
            n.norm_squared() == n.x * n.x + n.y * n.y + n.z * n.z,
    ;
    assert(along >= reach) by (nonlinear_arith)
        requires
            along * k >= n.norm_squared() * reach,
            n.norm_squared() >= k,
            reach >= 0,
            k > 0,
    {
        assert(n.norm_squared() * reach >= k * reach);
    }
    if d.dot(n) >= 0 {
        assert(plane_side(n, it.p, o) == along);
    } else {
        assert(plane_side(n, it.p, o) == -along) by (nonlinear_arith)
            requires
                o.x - it.p.x == -qx,
                o.y - it.p.y == -qy,
                o.z - it.p.z == -qz,
                along == n.x * qx + n.y * qy + n.z * qz,
                plane_side(n, it.p, o) == n.x * (o.x - it.p.x) + n.y * (o.y - it.p.y) + n.z * (o.z
                    - it.p.z),
        ;
    }
}

/// A shadow ray between two surface points clears both surfaces: its origin lies on the
/// side of the first tangent plane that faces the second point, and the point it aims at
/// lies on the side of the second tangent plane that faces the origin; and it stops short
/// of that point.
pub proof fn lemma_shadow_ray_clears_both_surfaces(it: InteractionCommon, other: InteractionCommon)
    requires
        it.p_error.x >= 0 && it.p_error.y >= 0 && it.p_error.z >= 0,
        other.p_error.x >= 0 && other.p_error.y >= 0 && other.p_error.z >= 0,
    ensures
        ({
            let toward = other.p.minus(it.p);
            let origin = it.ray_to(other).o;
            let back = origin.minus(other.p);
            let aim = other.origin_toward(back);
            &&& toward.dot(it.n) > 0 ==> plane_side(it.n, it.p, origin) >= 0
            &&& toward.dot(it.n) < 0 ==> plane_side(it.n, it.p, origin) <= 0
            &&& back.dot(other.n) > 0 ==> plane_side(other.n, other.p, aim) >= 0
            &&& back.dot(other.n) < 0 ==> plane_side(other.n, other.p, aim) <= 0
            &&& it.ray_to(other).d == aim.minus(origin)
            &&& it.ray_to(other).t_max < ONE
        }),
{
    let toward = other.p.minus(it.p);
    let origin = it.ray_to(other).o;
    let back = origin.minus(other.p);
    lemma_spawned_ray_leaves_surface(it, toward, 1, 1);
    lemma_spawned_ray_leaves_surface(other, back, 1, 1);
}

/// A shadow ray to a point starts on the side of the tangent plane that faces the point,
/// and stops short of the point.
pub proof fn lemma_shadow_ray_leaves_surface(it: InteractionCommon, target: Point3)
    requires
        it.p_error.x >= 0 && it.p_error.y >= 0 && it.p_error.z >= 0,
    ensures
        ({
            let d = target.minus(it.p);
            &&& d.dot(it.n) > 0 ==> plane_side(it.n, it.p, it.ray_to_point(target).o) >= 0
            &&& d.dot(it.n) < 0 ==> plane_side(it.n, it.p, it.ray_to_point(target).o) <= 0
            &&& it.ray_to_point(target).t_max < ONE
        }),
{
    lemma_spawned_ray_leaves_surface(it, target.minus(it.p), 1, 1);
}

/// A neighbouring ray that does not meet the tangent plane at a finite parameter leaves no
/// differentials at all, and neither does a ray without neighbours.
pub proof fn lemma_degenerate_differentials_are_zero(s: SurfaceInteraction, ray: Ray)
    requires
        match ray.differential {
            Some(diff) => plane_hit(s.common.n, s.common.p, diff.rx_origin, diff.rx_direction).is_none()
                || plane_hit(s.common.n, s.common.p, diff.ry_origin, diff.ry_direction).is_none(),
            None => true,
        },
    ensures
        s.differentials(ray) == Differentials::zero(),
{
}

/// The parameter that `plane_hit` finds meets the tangent plane to within rounding: the
/// point of the ray at that parameter misses the plane by less than one step of the
/// parameter.
pub proof fn lemma_plane_hit_meets_plane(n: Normal3, p: Point3, o: Point3, d: Vector3)
    requires
        plane_hit(n, p, o, d).is_some(),
    ensures
        -magnitude(n.dot(d)) < n.dot(d) * plane_hit(n, p, o, d).unwrap() - (n.dot(p) - n.dot(o))
            * ONE < magnitude(n.dot(d)),
{
    lemma_quot_remainder((n.dot(p) - n.dot(o)) * ONE, n.dot(d));
}

/// The dot product does not depend on the order of its arguments.
pub proof fn lemma_dot_commutes(a: Vector3, b: Vector3)
    by (nonlinear_arith)
    ensures
        a.dot(b) == b.dot(a),
{
}

/// A vector turned to the side of another makes no obtuse angle with it, as long as the
/// vector can be negated exactly.
pub proof fn lemma_facing_agrees(a: Vector3, v: Vector3)
    by (nonlinear_arith)
    requires
        a.negatable(),
    ensures
        a.facing(v).dot(v) >= 0,
{
}

impl Interaction for SurfaceInteraction {
    open spec fn common_data(&self) -> InteractionCommon {
        self.common
    }

    open spec fn attached_bsdf(&self) -> Option<Bsdf> {
        self.bsdf
    }

    open spec fn shading_normal(&self) -> Option<Normal3> {
        Some(self.shading.n)
    }

    open spec fn attached_phase(&self) -> Option<PhaseId> {
        None
    }

    fn is_surface_interaction(&self) -> (r: bool) {
        !vec3_is_zero(&self.common.n)
    }

    fn is_medium_interaction(&self) -> (r: bool) {
        !self.is_surface_interaction()
    }

    fn spawn_ray(&self, d: &Vector3) -> (r: Ray) {
        let o: Point3 = pnt3_offset_ray_origin(
            &self.common.p,
            &self.common.p_error,
            &self.common.n,
            d,
        );
        Ray {
            o,
            d: *d,
            t_max: FIXED_MAX,
            time: self.common.time,
            differential: None,
            medium: self.get_medium(d),
        }
    }

    fn get_common(&self) -> (r: &InteractionCommon) {
        &self.common
    }

    fn get_p(&self) -> (r: &Point3) {
        &self.common.p
    }

    fn get_time(&self) -> (r: Fixed) {
        self.common.time
    }

    fn get_p_error(&self) -> (r: &Vector3) {
        &self.common.p_error
    }

    fn get_wo(&self) -> (r: &Vector3) {
        &self.common.wo
    }

    fn get_n(&self) -> (r: &Normal3) {
        &self.common.n
    }

    fn get_medium_interface(&self) -> (r: Option<MediumInterface>) {
        self.common.medium_interface
    }

    fn get_bsdf(&self) -> (r: Option<&Bsdf>) {
        if let Some(ref bsdf) = self.bsdf {
            Some(bsdf)
        } else {
            None
        }
    }

    fn get_shading_n(&self) -> (r: Option<&Normal3>) {
        Some(&self.shading.n)
    }

    fn get_phase(&self) -> (r: Option<PhaseId>) {
        None
    }
}

} // verus!
