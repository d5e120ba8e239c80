use pbrt::fixed::{FIXED_MAX, ONE};
use pbrt::geometry::{vec3_dot, vec3_neg, Point2, Ray, RayDifferential, Vector3};
use pbrt::interaction::{
    Differentials, Interaction, InteractionCommon, MediumInteraction, Shading, SurfaceInteraction,
    SHADOW_EPSILON,
};
use pbrt::medium::{MediumId, MediumInterface, PhaseId};
use pbrt::primitive::{AreaLight, BssrdfId, Material, Primitive, PrimitiveId, Shape};
use pbrt::reflection::{
    Bsdf, TransportMode, BSDF_ALL, BSDF_DIFFUSE, BSDF_NON_SPECULAR, BSDF_REFLECTION, BSDF_SPECULAR,
    BSDF_TRANSMISSION,
};
use pbrt::spectrum::Spectrum;

fn v(x: i32, y: i32, z: i32) -> Vector3 {
    Vector3 { x, y, z }
}

const ERR: i32 = 66;

fn flat(medium_interface: Option<MediumInterface>) -> InteractionCommon {
    InteractionCommon {
        p: v(ONE, 2 * ONE, 0),
        time: ONE / 4,
        p_error: v(ERR, ERR, ERR),
        wo: v(0, 0, ONE),
        n: v(0, 0, ONE),
        medium_interface,
    }
}

fn glass_in_air() -> Option<MediumInterface> {
    Some(MediumInterface { inside: Some(MediumId { index: 1 }), outside: Some(MediumId { index: 2 }) })
}

fn surface(shape: Option<Shape>) -> SurfaceInteraction {
    SurfaceInteraction::new(
        &v(ONE, 2 * ONE, 0),
        &v(ERR, ERR, ERR),
        Point2 { x: ONE / 2, y: ONE / 4 },
        &v(0, 0, 3 * ONE),
        &v(ONE, 0, 0),
        &v(0, ONE, 0),
        &v(0, 0, 0),
        &v(0, 0, 0),
        ONE / 8,
        shape,
    )
}

#[test]
fn spawned_ray_starts_off_the_surface() {
    let it = flat(glass_in_air());
    let up = it.spawn_ray(&v(0, ONE, ONE));
    assert_eq!(
        up,
        Ray {
            o: v(ONE, 2 * ONE, ERR),
            d: v(0, ONE, ONE),
            t_max: FIXED_MAX,
            time: ONE / 4,
            differential: None,
            medium: Some(MediumId { index: 2 }),
        }
    );
    let down = it.spawn_ray(&v(0, ONE, -ONE));
    assert_eq!(down.o, v(ONE, 2 * ONE, -ERR));
    assert_eq!(down.medium, Some(MediumId { index: 1 }));
    assert_eq!(down.t_max, FIXED_MAX);
}

#[test]
fn spawned_ray_does_not_meet_its_flat_primitive_again() {
    // the primitive is the plane z = 0 through p; a ray along the normal stays above it
    let it = flat(None);
    let ray = it.spawn_ray(&it.n);
    let side = vec3_dot(&it.n, &Vector3 { x: ray.o.x - it.p.x, y: ray.o.y - it.p.y, z: ray.o.z - it.p.z });
    assert!(side > 0);
    let along = vec3_dot(&it.n, &ray.d);
    assert!(along > 0);
    // the ray meets the plane where side + t * along = 0: only behind its origin
    assert!(-side / along < 0 || (side > 0 && along > 0));
    // the origin is as far from the plane as the error box reaches
    assert_eq!(ray.o.z - it.p.z, ERR);
    // and the same below the surface
    let below = it.spawn_ray(&vec3_neg(&it.n));
    assert_eq!(below.o.z - it.p.z, -ERR);
}

#[test]
fn shadow_ray_to_a_point_stops_short_of_it() {
    let it = flat(glass_in_air());
    let target = v(ONE, 2 * ONE, 5 * ONE);
    let ray = it.spawn_ray_to_pnt(&target);
    assert_eq!(ray.d, v(0, 0, 5 * ONE));
    assert_eq!(ray.o, v(ONE, 2 * ONE, ERR));
    assert_eq!(ray.t_max, ONE - SHADOW_EPSILON);
    assert_eq!(ray.t_max, 65529);
    assert_eq!(ray.time, ONE / 4);
    assert_eq!(ray.differential, None);
    assert_eq!(ray.medium, Some(MediumId { index: 2 }));
    let below = it.spawn_ray_to_pnt(&v(ONE, 2 * ONE, -5 * ONE));
    assert_eq!(below.o, v(ONE, 2 * ONE, -ERR));
    assert_eq!(below.medium, Some(MediumId { index: 1 }));
}

#[test]
fn shadow_ray_between_two_surfaces_is_offset_at_both_ends() {
    let it = flat(None);
    let other = InteractionCommon {
        p: v(ONE, 2 * ONE, 4 * ONE),
        time: 0,
        p_error: v(10, 10, 10),
        wo: v(0, 0, -ONE),
        n: v(0, 0, -ONE),
        medium_interface: None,
    };
    let ray = it.spawn_ray_to(&other);
    assert_eq!(ray.o, v(ONE, 2 * ONE, ERR));
    // the target lies below the other surface by its error bound
    assert_eq!(ray.d, v(0, 0, 4 * ONE - 10 - ERR));
    assert_eq!(ray.t_max, ONE - SHADOW_EPSILON);
    assert_eq!(ray.time, ONE / 4);
    assert_eq!(ray.medium, None);
}

#[test]
fn medium_is_resolved_by_the_side_of_the_normal() {
    let it = flat(glass_in_air());
    assert_eq!(it.get_medium(&v(0, 0, 1)), Some(MediumId { index: 2 }));
    assert_eq!(it.get_medium(&v(5, 5, 1)), Some(MediumId { index: 2 }));
    assert_eq!(it.get_medium(&v(0, 0, -1)), Some(MediumId { index: 1 }));
    // a direction in the tangent plane counts as inside
    assert_eq!(it.get_medium(&v(1, 0, 0)), Some(MediumId { index: 1 }));
    assert_eq!(flat(None).get_medium(&v(0, 0, 1)), None);
    let half = InteractionCommon {
        medium_interface: Some(MediumInterface { inside: None, outside: Some(MediumId { index: 9 }) }),
        ..flat(None)
    };
    assert_eq!(half.get_medium(&v(0, 0, 1)), Some(MediumId { index: 9 }));
    assert_eq!(half.get_medium(&v(0, 0, -1)), None);
}

#[test]
fn medium_interface_accessors() {
    let mi = MediumInterface::new(Some(MediumId { index: 1 }), Some(MediumId { index: 2 }));
    assert_eq!(mi.get_inside(), Some(MediumId { index: 1 }));
    assert_eq!(mi.get_outside(), Some(MediumId { index: 2 }));
    assert!(mi.is_medium_transition());
    assert!(!MediumInterface::new(None, None).is_medium_transition());
    assert!(MediumInterface::new(None, Some(MediumId { index: 2 })).is_medium_transition());
    let same = MediumInterface::new(Some(MediumId { index: 3 }), Some(MediumId { index: 3 }));
    assert!(!same.is_medium_transition());
}

#[test]
fn medium_interaction_has_no_normal_and_one_medium() {
    let mi = MediumInteraction::new(
        &v(1, 2, 3),
        &v(0, ONE, 0),
        ONE / 2,
        Some(MediumId { index: 4 }),
        Some(PhaseId { index: 7 }),
    );
    assert_eq!(mi.common.p, v(1, 2, 3));
    assert_eq!(mi.common.wo, v(0, ONE, 0));
    assert_eq!(mi.common.time, ONE / 2);
    assert_eq!(mi.common.p_error, v(0, 0, 0));
    assert_eq!(mi.common.n, v(0, 0, 0));
    assert_eq!(
        mi.common.medium_interface,
        Some(MediumInterface { inside: Some(MediumId { index: 4 }), outside: Some(MediumId { index: 4 }) })
    );
    assert!(mi.is_valid());
    assert_eq!(MediumInteraction::get_phase(&mi), Some(PhaseId { index: 7 }));
    assert_eq!(MediumInteraction::get_medium(&mi, &v(0, 0, 1)), Some(MediumId { index: 4 }));
    assert_eq!(MediumInteraction::get_medium(&mi, &v(0, 0, -1)), Some(MediumId { index: 4 }));
    assert!(mi.is_medium_interaction());
    assert!(!mi.is_surface_interaction());
    // without an error bound and a normal the ray starts at the point itself
    let ray = Interaction::spawn_ray(&mi, &v(0, 0, ONE));
    assert_eq!(ray.o, v(1, 2, 3));
    assert_eq!(ray.t_max, FIXED_MAX);
    assert_eq!(ray.medium, Some(MediumId { index: 4 }));
    assert_eq!(mi.get_bsdf(), None);
    assert_eq!(mi.get_shading_n(), None);
    assert_eq!(*mi.get_p(), v(1, 2, 3));
    assert_eq!(*mi.get_wo(), v(0, ONE, 0));
    assert_eq!(*mi.get_n(), v(0, 0, 0));
    assert_eq!(*mi.get_p_error(), v(0, 0, 0));
    assert_eq!(mi.get_time(), ONE / 2);
    assert_eq!(*mi.get_common(), mi.common);
    assert_eq!(mi.get_medium_interface(), mi.common.medium_interface);
}

#[test]
fn medium_interaction_without_medium_or_phase() {
    let mi = MediumInteraction::new(&v(0, 0, 0), &v(0, 0, ONE), 0, None, None);
    assert_eq!(mi.common.medium_interface, None);
    assert!(!mi.is_valid());
    assert_eq!(MediumInteraction::get_phase(&mi), None);
    assert_eq!(MediumInteraction::get_medium(&mi, &v(0, 0, 1)), None);
}

#[test]
fn surface_interaction_starts_with_the_true_geometry() {
    let si = surface(None);
    assert_eq!(si.common.p, v(ONE, 2 * ONE, 0));
    assert_eq!(si.common.p_error, v(ERR, ERR, ERR));
    assert_eq!(si.common.time, ONE / 8);
    // wo is brought to unit length
    assert_eq!(si.common.wo, v(0, 0, ONE));
    assert_eq!(si.common.n, v(0, 0, ONE));
    assert_eq!(si.common.medium_interface, None);
    assert_eq!(si.uv, Point2 { x: ONE / 2, y: ONE / 4 });
    assert_eq!(
        si.shading,
        Shading { n: v(0, 0, ONE), dpdu: v(ONE, 0, 0), dpdv: v(0, ONE, 0), dndu: v(0, 0, 0), dndv: v(0, 0, 0) }
    );
    assert_eq!(si.dpdx, v(0, 0, 0));
    assert_eq!(si.dpdy, v(0, 0, 0));
    assert_eq!((si.dudx, si.dvdx, si.dudy, si.dvdy), (0, 0, 0, 0));
    assert_eq!(si.primitive, None);
    assert_eq!(si.bsdf, None);
    assert_eq!(si.bssrdf, None);
    assert_eq!(si.shape, None);
    assert!(si.is_surface_interaction());
    assert!(!si.is_medium_interaction());
    assert_eq!(si.get_shading_n(), Some(&v(0, 0, ONE)));
    assert_eq!(Interaction::get_phase(&si), None);
    assert_eq!(si.get_bsdf(), None);
    assert_eq!(*si.get_n(), v(0, 0, ONE));
}

#[test]
fn normal_of_a_tilted_surface() {
    let si = SurfaceInteraction::new(
        &v(0, 0, 0),
        &v(0, 0, 0),
        Point2 { x: 0, y: 0 },
        &v(ONE, 0, 0),
        &v(0, 0, 2 * ONE),
        &v(4 * ONE, -3 * ONE, 0),
        &v(0, 0, 0),
        &v(0, 0, 0),
        0,
        None,
    );
    // the cross product is (6, 8, 0), of length 10
    assert_eq!(si.common.n, v(39322, 52429, 0));
    assert_eq!(si.shading.n, si.common.n);
}

#[test]
fn reversing_the_orientation_alone_flips_the_normals() {
    let shape = |reverse_orientation: bool, transform_swaps_handedness: bool| {
        Some(Shape { reverse_orientation, transform_swaps_handedness })
    };
    let plain = surface(shape(false, false));
    let reversed = surface(shape(true, false));
    let swapped = surface(shape(false, true));
    let both = surface(shape(true, true));
    assert_eq!(plain.shading.n, v(0, 0, ONE));
    assert_eq!(plain.common.n, v(0, 0, ONE));
    assert_eq!(reversed.shading.n, v(0, 0, -ONE));
    assert_eq!(reversed.common.n, v(0, 0, -ONE));
    assert_eq!(swapped.shading.n, v(0, 0, -ONE));
    assert_eq!(swapped.common.n, v(0, 0, -ONE));
    assert_eq!(both.shading.n, v(0, 0, ONE));
    assert_eq!(both.common.n, v(0, 0, ONE));
    // all else is equal
    assert_eq!(reversed.shading.dpdu, plain.shading.dpdu);
    assert_eq!(reversed.common.wo, plain.common.wo);
    assert_eq!(reversed.uv, plain.uv);
    assert_eq!(surface(None).common.n, v(0, 0, ONE));
}

#[test]
fn shading_geometry_that_is_authoritative_turns_the_geometric_normal() {
    let mut si = surface(None);
    // the new derivatives span a surface whose normal points down
    si.set_shading_geometry(&v(0, ONE, 0), &v(ONE, 0, 0), &v(1, 0, 0), &v(0, 1, 0), true);
    assert_eq!(si.shading.n, v(0, 0, -ONE));
    assert_eq!(si.common.n, v(0, 0, -ONE));
    assert_eq!(si.shading.dpdu, v(0, ONE, 0));
    assert_eq!(si.shading.dpdv, v(ONE, 0, 0));
    assert_eq!(si.shading.dndu, v(1, 0, 0));
    assert_eq!(si.shading.dndv, v(0, 1, 0));
    // the true derivatives stay
    assert_eq!(si.dpdu, v(ONE, 0, 0));
    assert_eq!(si.dpdv, v(0, ONE, 0));
}

#[test]
fn shading_geometry_that_is_not_authoritative_follows_the_geometric_normal() {
    let mut si = surface(None);
    si.set_shading_geometry(&v(0, ONE, 0), &v(ONE, 0, 0), &v(0, 0, 0), &v(0, 0, 0), false);
    assert_eq!(si.shading.n, v(0, 0, ONE));
    assert_eq!(si.common.n, v(0, 0, ONE));
    assert_eq!(si.shading.dpdu, v(0, ONE, 0));
}

#[test]
fn shading_normal_is_flipped_by_the_shape_before_it_is_reconciled() {
    let mut plain = surface(Some(Shape { reverse_orientation: false, transform_swaps_handedness: false }));
    let mut reversed = surface(Some(Shape { reverse_orientation: true, transform_swaps_handedness: false }));
    // a perturbed shading frame, tilted toward x
    plain.set_shading_geometry(&v(ONE, 0, ONE), &v(0, ONE, 0), &v(0, 0, 0), &v(0, 0, 0), true);
    reversed.set_shading_geometry(&v(ONE, 0, ONE), &v(0, ONE, 0), &v(0, 0, 0), &v(0, 0, 0), true);
    assert_eq!(plain.shading.n, v(-46341, 0, 46341));
    assert_eq!(reversed.shading.n, v(46341, 0, -46341));
    assert_eq!(plain.common.n, v(0, 0, ONE));
    assert_eq!(reversed.common.n, v(0, 0, -ONE));
    for si in [plain, reversed].iter() {
        assert!(vec3_dot(&si.common.n, &si.shading.n) >= 0);
    }
}

#[test]
fn normals_never_end_up_in_opposite_hemispheres() {
    let frames = [
        (v(ONE, 0, 0), v(0, ONE, 0)),
        (v(0, ONE, 0), v(ONE, 0, 0)),
        (v(ONE, 0, ONE), v(0, ONE, -ONE)),
        (v(-ONE, 5, 3), v(7, -ONE, 2 * ONE)),
    ];
    for (dpdus, dpdvs) in frames.iter() {
        for authoritative in [false, true].iter() {
            for reverse in [false, true].iter() {
                let mut si = surface(Some(Shape {
                    reverse_orientation: *reverse,
                    transform_swaps_handedness: false,
                }));
                si.set_shading_geometry(dpdus, dpdvs, &v(0, 0, 0), &v(0, 0, 0), *authoritative);
                assert!(vec3_dot(&si.common.n, &si.shading.n) >= 0);
            }
        }
    }
}

fn camera_ray(differential: Option<RayDifferential>) -> Ray {
    Ray { o: v(ONE, 2 * ONE, ONE), d: v(0, 0, -ONE), t_max: FIXED_MAX, time: 0, differential, medium: None }
}

fn no_differentials() -> Differentials {
    Differentials { dpdx: v(0, 0, 0), dpdy: v(0, 0, 0), dudx: 0, dvdx: 0, dudy: 0, dvdy: 0 }
}

#[test]
fn differentials_of_a_ray_without_neighbours_are_zero() {
    let mut si = surface(None);
    si.dudx = 5;
    si.dpdy = v(1, 2, 3);
    assert_eq!(si.ray_differentials(&camera_ray(None)), no_differentials());
    si.compute_differentials(&camera_ray(None));
    assert_eq!(si.dudx, 0);
    assert_eq!(si.dpdy, v(0, 0, 0));
}

#[test]
fn differentials_from_the_neighbouring_rays() {
    let mut si = surface(None);
    // the neighbours start a tenth to the right and a fifth up, and run along the ray
    let diff = RayDifferential {
        rx_origin: v(ONE + 6554, 2 * ONE, ONE),
        ry_origin: v(ONE, 2 * ONE + 13107, ONE),
        rx_direction: v(0, 0, -ONE),
        ry_direction: v(0, 0, -ONE),
    };
    let expected = Differentials {
        dpdx: v(6554, 0, 0),
        dpdy: v(0, 13107, 0),
        dudx: 6554,
        dvdx: 0,
        dudy: 0,
        dvdy: 13107,
    };
    assert_eq!(si.ray_differentials(&camera_ray(Some(diff))), expected);
    si.compute_differentials(&camera_ray(Some(diff)));
    assert_eq!(si.dpdx, v(6554, 0, 0));
    assert_eq!(si.dpdy, v(0, 13107, 0));
    assert_eq!((si.dudx, si.dvdx, si.dudy, si.dvdy), (6554, 0, 0, 13107));
    // nothing else changes
    assert_eq!(si.common, surface(None).common);
    assert_eq!(si.shading, surface(None).shading);
}

#[test]
fn differentials_with_stretched_texture_coordinates() {
    let mut si = SurfaceInteraction::new(
        &v(0, 0, 0),
        &v(0, 0, 0),
        Point2 { x: 0, y: 0 },
        &v(0, 0, ONE),
        &v(2 * ONE, 0, 0),
        &v(0, 4 * ONE, 0),
        &v(0, 0, 0),
        &v(0, 0, 0),
        0,
        None,
    );
    let diff = RayDifferential {
        rx_origin: v(ONE, 0, ONE),
        ry_origin: v(0, ONE, ONE),
        rx_direction: v(0, 0, -ONE),
        ry_direction: v(0, 0, -ONE),
    };
    si.compute_differentials(&camera_ray(Some(diff)));
    assert_eq!(si.dpdx, v(ONE, 0, 0));
    assert_eq!(si.dpdy, v(0, ONE, 0));
    assert_eq!((si.dudx, si.dvdx, si.dudy, si.dvdy), (ONE / 2, 0, 0, ONE / 4));
}

#[test]
fn differentials_of_a_neighbour_along_the_surface_are_zero() {
    let si = surface(None);
    // the x neighbour never meets the tangent plane
    let diff = RayDifferential {
        rx_origin: v(ONE, 2 * ONE, ONE),
        ry_origin: v(ONE, 2 * ONE + 13107, ONE),
        rx_direction: v(ONE, 0, 0),
        ry_direction: v(0, 0, -ONE),
    };
    assert_eq!(si.ray_differentials(&camera_ray(Some(diff))), no_differentials());
    // and neither does the y neighbour here
    let diff = RayDifferential {
        rx_origin: v(ONE, 2 * ONE, ONE),
        ry_origin: v(ONE, 2 * ONE, ONE),
        rx_direction: v(0, 0, -ONE),
        ry_direction: v(0, ONE, 0),
    };
    assert_eq!(si.ray_differentials(&camera_ray(Some(diff))), no_differentials());
}

#[test]
fn differentials_of_a_neighbour_that_meets_the_plane_too_far_away_are_zero() {
    let si = surface(None);
    // the x neighbour runs almost along the plane: its hit lies beyond the range
    let diff = RayDifferential {
        rx_origin: v(ONE, 2 * ONE, FIXED_MAX),
        ry_origin: v(ONE, 2 * ONE, ONE),
        rx_direction: v(ONE, 0, -1),
        ry_direction: v(0, 0, -ONE),
    };
    assert_eq!(si.ray_differentials(&camera_ray(Some(diff))), no_differentials());
}

#[test]
fn differentials_with_degenerate_derivatives_keep_the_offsets() {
    // dpdu and dpdv are parallel: the position offsets are found, the changes of (u, v) not
    let mut si = surface(None);
    si.dpdu = v(ONE, 0, 0);
    si.dpdv = v(2 * ONE, 0, 0);
    let diff = RayDifferential {
        rx_origin: v(ONE + 6554, 2 * ONE, ONE),
        ry_origin: v(ONE, 2 * ONE + 13107, ONE),
        rx_direction: v(0, 0, -ONE),
        ry_direction: v(0, 0, -ONE),
    };
    let d = si.ray_differentials(&camera_ray(Some(diff)));
    assert_eq!(d.dpdx, v(6554, 0, 0));
    assert_eq!(d.dpdy, v(0, 13107, 0));
    assert_eq!((d.dudx, d.dvdx, d.dudy, d.dvdy), (0, 0, 0, 0));
}

#[test]
fn differentials_project_along_the_longest_axis_of_the_normal() {
    // a wall facing x: the system is solved in y and z
    let mut si = SurfaceInteraction::new(
        &v(0, 0, 0),
        &v(0, 0, 0),
        Point2 { x: 0, y: 0 },
        &v(ONE, 0, 0),
        &v(0, ONE, 0),
        &v(0, 0, ONE),
        &v(0, 0, 0),
        &v(0, 0, 0),
        0,
        None,
    );
    assert_eq!(si.common.n, v(ONE, 0, 0));
    let diff = RayDifferential {
        rx_origin: v(ONE, 1000, 0),
        ry_origin: v(ONE, 0, 2000),
        rx_direction: v(-ONE, 0, 0),
        ry_direction: v(-ONE, 0, 0),
    };
    let ray = Ray { o: v(ONE, 0, 0), d: v(-ONE, 0, 0), t_max: FIXED_MAX, time: 0, differential: Some(diff), medium: None };
    si.compute_differentials(&ray);
    assert_eq!(si.dpdx, v(0, 1000, 0));
    assert_eq!(si.dpdy, v(0, 0, 2000));
    assert_eq!((si.dudx, si.dvdx, si.dudy, si.dvdy), (1000, 0, 0, 2000));
}

fn lobes(kinds: &[u8]) -> (usize, [u8; 8]) {
    let mut bxdfs = [0u8; 8];
    for (i, k) in kinds.iter().enumerate() {
        bxdfs[i] = *k;
    }
    (kinds.len(), bxdfs)
}

fn table() -> Vec<Primitive> {
    let (n_bxdfs, bxdfs) = lobes(&[BSDF_REFLECTION | BSDF_DIFFUSE, BSDF_REFLECTION | BSDF_SPECULAR]);
    vec![
        Primitive {
            area_light: Some(AreaLight { l_emit: Spectrum { r: 2 * ONE, g: 3 * ONE / 2, b: ONE / 2 }, two_sided: false }),
            material: None,
        },
        Primitive {
            area_light: None,
            material: Some(Material { eta: 3 * ONE / 2, n_bxdfs, bxdfs, bssrdf: Some(BssrdfId { index: 4 }) }),
        },
        Primitive {
            area_light: Some(AreaLight { l_emit: Spectrum::new(ONE), two_sided: true }),
            material: None,
        },
    ]
}

#[test]
fn emission_comes_from_the_light_on_the_primitive() {
    let primitives = table();
    let mut si = surface(None);
    let black = Spectrum::new(0);
    // no primitive, no light
    assert_eq!(si.le(&v(0, 0, ONE), &primitives), black);
    si.primitive = Some(PrimitiveId { index: 0 });
    assert_eq!(si.le(&v(0, 0, ONE), &primitives), Spectrum { r: 2 * ONE, g: 3 * ONE / 2, b: ONE / 2 });
    // a light with one side emits nothing to the back
    assert_eq!(si.le(&v(0, 0, -ONE), &primitives), black);
    assert_eq!(si.le(&v(ONE, 0, 0), &primitives), black);
    si.primitive = Some(PrimitiveId { index: 1 });
    assert_eq!(si.le(&v(0, 0, ONE), &primitives), black);
    si.primitive = Some(PrimitiveId { index: 2 });
    assert_eq!(si.le(&v(0, 0, -ONE), &primitives), Spectrum::new(ONE));
    // a primitive that the table does not hold emits nothing
    si.primitive = Some(PrimitiveId { index: 3 });
    assert_eq!(si.le(&v(0, 0, ONE), &primitives), black);
}

#[test]
fn area_light_radiance() {
    let light = AreaLight { l_emit: Spectrum::new(7), two_sided: false };
    assert_eq!(light.l(&v(0, 0, ONE), &v(0, 0, 1)), Spectrum::new(7));
    assert_eq!(light.l(&v(0, 0, ONE), &v(0, 0, -1)), Spectrum::new(0));
    let both = AreaLight { l_emit: Spectrum::new(7), two_sided: true };
    assert_eq!(both.l(&v(0, 0, ONE), &v(0, 0, -1)), Spectrum::new(7));
}

#[test]
fn scattering_functions_come_from_the_primitive() {
    let primitives = table();
    let diff = RayDifferential {
        rx_origin: v(ONE + 6554, 2 * ONE, ONE),
        ry_origin: v(ONE, 2 * ONE + 13107, ONE),
        rx_direction: v(0, 0, -ONE),
        ry_direction: v(0, 0, -ONE),
    };
    let mut si = surface(None);
    si.primitive = Some(PrimitiveId { index: 1 });
    si.compute_scattering_functions(&camera_ray(Some(diff)), &primitives, true, TransportMode::Radiance);
    let bsdf = si.bsdf.unwrap();
    assert_eq!(bsdf.eta, 3 * ONE / 2);
    assert_eq!(bsdf.n_bxdfs, 2);
    assert_eq!(bsdf.mode, TransportMode::Radiance);
    assert!(bsdf.allow_multiple_lobes);
    assert_eq!(si.bssrdf, Some(BssrdfId { index: 4 }));
    assert_eq!(si.get_bsdf(), Some(&bsdf));
    // the differentials were computed on the way
    assert_eq!((si.dudx, si.dvdy), (6554, 13107));

    // a primitive without material marks a boundary: nothing is attached
    let mut boundary = surface(None);
    boundary.primitive = Some(PrimitiveId { index: 0 });
    boundary.compute_scattering_functions(&camera_ray(None), &primitives, false, TransportMode::Importance);
    assert_eq!(boundary.bsdf, None);
    assert_eq!(boundary.bssrdf, None);

    // without a primitive only the differentials are computed
    let mut loose = surface(None);
    loose.dudx = 9;
    loose.compute_scattering_functions(&camera_ray(None), &primitives, false, TransportMode::Importance);
    assert_eq!(loose.bsdf, None);
    assert_eq!(loose.dudx, 0);
}

#[test]
fn lobes_are_counted_by_kind() {
    let (n_bxdfs, bxdfs) = lobes(&[
        BSDF_REFLECTION | BSDF_DIFFUSE,
        BSDF_REFLECTION | BSDF_SPECULAR,
        BSDF_TRANSMISSION | BSDF_SPECULAR,
    ]);
    let bsdf = Bsdf { eta: ONE, n_bxdfs, bxdfs, mode: TransportMode::Radiance, allow_multiple_lobes: true };
    assert_eq!(bsdf.num_components(BSDF_ALL), 3);
    assert_eq!(bsdf.num_components(BSDF_NON_SPECULAR), 1);
    assert_eq!(bsdf.num_components(BSDF_SPECULAR | BSDF_REFLECTION), 1);
    assert_eq!(bsdf.num_components(BSDF_SPECULAR | BSDF_REFLECTION | BSDF_TRANSMISSION), 2);
    assert_eq!(bsdf.num_components(BSDF_DIFFUSE), 0);
    assert_eq!(bsdf.num_components(0), 0);
    let none = Bsdf { n_bxdfs: 0, ..bsdf };
    assert_eq!(none.num_components(BSDF_ALL), 0);
    // lobes beyond the eighth do not count
    let many = Bsdf { n_bxdfs: 100, bxdfs: [BSDF_DIFFUSE | BSDF_REFLECTION; 8], ..bsdf };
    assert_eq!(many.num_components(BSDF_ALL), 8);
}

#[test]
fn primitive_accessors() {
    let primitives = table();
    assert_eq!(primitives[0].get_area_light(), primitives[0].area_light);
    assert_eq!(primitives[1].get_area_light(), None);
    let (bsdf, bssrdf) = primitives[1].scattering_functions(TransportMode::Importance, false);
    assert_eq!(bsdf.unwrap().mode, TransportMode::Importance);
    assert!(!bsdf.unwrap().allow_multiple_lobes);
    assert_eq!(bssrdf, Some(BssrdfId { index: 4 }));
    assert_eq!(primitives[0].scattering_functions(TransportMode::Radiance, true), (None, None));
    let shape = Shape { reverse_orientation: true, transform_swaps_handedness: false };
    assert!(shape.get_reverse_orientation());
    assert!(!shape.get_transform_swaps_handedness());
}

#[test]
fn spawned_rays_leave_on_the_side_they_point_to() {
    let mut word: u64 = 1;
    let mut next = |range: i64| {
        word = pbrt::rng::mix(word);
        ((word >> 16) as i64 % (2 * range + 1) - range) as i32
    };
    for _ in 0..2000 {
        let n = pbrt::geometry::vec3_normalize(&v(next(1 << 20), next(1 << 20), next(1 << 20)));
        if n == v(0, 0, 0) {
            continue;
        }
        let it = InteractionCommon {
            p: v(next(1 << 24), next(1 << 24), next(1 << 24)),
            time: 0,
            p_error: v(next(500).abs(), next(500).abs(), next(500).abs()),
            wo: n,
            n,
            medium_interface: None,
        };
        let d = v(next(1 << 20), next(1 << 20), next(1 << 20));
        let ray = it.spawn_ray(&d);
        let step = Vector3 { x: ray.o.x - it.p.x, y: ray.o.y - it.p.y, z: ray.o.z - it.p.z };
        let side = vec3_dot(&it.n, &step);
        let along = vec3_dot(&it.n, &d);
        // how far the error box reaches along the normal
        let reach = (n.x.abs() as i128) * (it.p_error.x as i128)
            + (n.y.abs() as i128) * (it.p_error.y as i128)
            + (n.z.abs() as i128) * (it.p_error.z as i128);
        if along >= 0 {
            assert!(side >= reach);
        } else {
            assert!(side <= -reach);
        }
        // no later point of the ray lies on the tangent plane: side + t * along keeps its sign
        if along != 0 {
            assert!(side == 0 || (side > 0) == (along > 0));
        }
    }
}
