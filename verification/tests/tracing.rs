//! Tests of the intersection routine, the hit payload, the scene query
//! and the material model, on exact fixed-point values.

use pathtrace::bool32::Bool32;
use pathtrace::fixed::Fx;
use pathtrace::material::EnumMaterial;
use pathtrace::ray::{Ray, RayPayload};
use pathtrace::rng::DefaultRng;
use pathtrace::scene::{background_color, trace_scene, SphereInstance};
use pathtrace::sphere::{sphere_intersection, Affine3};
use pathtrace::vec3::Vec3;

fn v(x: i64, y: i64, z: i64) -> Vec3 {
    Vec3::new(Fx::from_raw(x), Fx::from_raw(y), Fx::from_raw(z))
}

const T_MIN: i64 = 66;
const T_MAX: i64 = 6553600000;

#[test]
fn head_on_ray_returns_both_roots_exactly() {
    // origin at distance 3, aimed at the center: roots 2 and 4
    let r = sphere_intersection(
        v(0, 0, 196608),
        v(0, 0, -65536),
        Fx::from_raw(T_MIN),
        Fx::from_raw(T_MAX),
    );
    assert_eq!(r.root0.map(|t| t.raw), Some(131072));
    assert_eq!(r.root1.map(|t| t.raw), Some(262144));
}

#[test]
fn head_on_ray_fractional_distance() {
    // distance 2.5: roots 1.5 and 3.5, still exact
    let r = sphere_intersection(
        v(0, 0, 163840),
        v(0, 0, -65536),
        Fx::from_raw(T_MIN),
        Fx::from_raw(T_MAX),
    );
    assert_eq!(r.root0.map(|t| t.raw), Some(98304));
    assert_eq!(r.root1.map(|t| t.raw), Some(229376));
}

#[test]
fn offset_beyond_one_misses() {
    // perpendicular offset just over one unit: no roots
    let r = sphere_intersection(
        v(65537, 0, 196608),
        v(0, 0, -65536),
        Fx::from_raw(T_MIN),
        Fx::from_raw(T_MAX),
    );
    assert_eq!(r.root0, None);
    assert_eq!(r.root1, None);
    let r2 = sphere_intersection(
        v(131072, 0, 196608),
        v(0, 0, -65536),
        Fx::from_raw(T_MIN),
        Fx::from_raw(T_MAX),
    );
    assert_eq!(r2.root0, None);
    assert_eq!(r2.root1, None);
}

#[test]
fn roots_are_filtered_by_the_interval_independently() {
    // far root beyond t_max: only the near one is reported
    let r = sphere_intersection(
        v(0, 0, 196608),
        v(0, 0, -65536),
        Fx::from_raw(T_MIN),
        Fx::from_raw(196608),
    );
    assert_eq!(r.root0.map(|t| t.raw), Some(131072));
    assert_eq!(r.root1, None);
    // near root before t_min: only the far one is reported
    let r2 = sphere_intersection(
        v(0, 0, 196608),
        v(0, 0, -65536),
        Fx::from_raw(163840),
        Fx::from_raw(T_MAX),
    );
    assert_eq!(r2.root0, None);
    assert_eq!(r2.root1.map(|t| t.raw), Some(262144));
}

#[test]
fn zero_direction_reports_nothing() {
    let r = sphere_intersection(
        v(0, 0, 196608),
        v(0, 0, 0),
        Fx::from_raw(T_MIN),
        Fx::from_raw(T_MAX),
    );
    assert_eq!(r.root0, None);
    assert_eq!(r.root1, None);
}

#[test]
fn payload_orients_the_normal_against_the_ray() {
    let p = RayPayload::new(v(0, 0, 65536), v(0, 0, 65536), v(0, 0, -65536), 4);
    assert_eq!(p.front_face.0, 1);
    assert_eq!((p.normal.x.raw, p.normal.y.raw, p.normal.z.raw), (0, 0, 65536));
    assert_eq!(p.material, 4);
    assert_eq!(p.is_miss.0, 0);
    let q = RayPayload::new(v(0, 0, 65536), v(0, 0, 65536), v(0, 0, 65536), 4);
    assert_eq!(q.front_face.0, 0);
    assert_eq!((q.normal.x.raw, q.normal.y.raw, q.normal.z.raw), (0, 0, -65536));
}

#[test]
fn affine_constructors() {
    let i = Affine3::identity();
    assert_eq!(i.x.x.raw, 65536);
    assert_eq!(i.y.y.raw, 65536);
    assert_eq!(i.z.z.raw, 65536);
    assert_eq!((i.w.x.raw, i.w.y.raw, i.w.z.raw), (0, 0, 0));
    let z = Affine3::zero();
    assert_eq!(z.x.x.raw, 0);
}

#[test]
fn background_is_white_downward_and_blue_upward() {
    let up = background_color(v(0, 65536, 0));
    assert_eq!((up.x.raw, up.y.raw, up.z.raw), (32768, 45875, 65536));
    let down = background_color(v(0, -65536, 0));
    assert_eq!((down.x.raw, down.y.raw, down.z.raw), (65536, 65536, 65536));
}

#[test]
fn empty_scene_always_misses() {
    let instances: Vec<SphereInstance> = Vec::new();
    let ray = Ray { origin: v(0, 0, 196608), direction: v(0, 65536, 0) };
    let p = trace_scene(&instances, &ray, Fx::from_raw(T_MIN), Fx::from_raw(T_MAX));
    assert_eq!(p.is_miss.0, 1);
    assert_eq!((p.position.x.raw, p.position.y.raw, p.position.z.raw), (32768, 45875, 65536));
}

#[test]
fn single_sphere_hit_payload() {
    let instances = vec![SphereInstance { center: v(0, 0, 0), material_index: 0 }];
    let ray = Ray { origin: v(0, 0, 196608), direction: v(0, 0, -65536) };
    let p = trace_scene(&instances, &ray, Fx::from_raw(T_MIN), Fx::from_raw(T_MAX));
    assert_eq!(p.is_miss.0, 0);
    assert_eq!((p.position.x.raw, p.position.y.raw, p.position.z.raw), (0, 0, 65536));
    assert_eq!((p.normal.x.raw, p.normal.y.raw, p.normal.z.raw), (0, 0, 65536));
    assert_eq!(p.front_face.0, 1);
    assert_eq!(p.material, 0);
}

#[test]
fn nearest_instance_wins() {
    let instances = vec![
        SphereInstance { center: v(0, 0, -655360), material_index: 1 },
        SphereInstance { center: v(0, 0, 0), material_index: 2 },
    ];
    let ray = Ray { origin: v(0, 0, 196608), direction: v(0, 0, -65536) };
    let p = trace_scene(&instances, &ray, Fx::from_raw(T_MIN), Fx::from_raw(T_MAX));
    assert_eq!(p.is_miss.0, 0);
    assert_eq!(p.material, 2);
}

fn head_on_hit() -> RayPayload {
    RayPayload {
        position: v(0, 0, 65536),
        normal: v(0, 0, 65536),
        is_miss: Bool32::new(false),
        material: 0,
        front_face: Bool32::new(true),
    }
}

#[test]
fn lambertian_always_scatters_with_its_albedo() {
    let albedo = v(32768, 32768, 32768);
    let m = EnumMaterial::new_lambertian(albedo);
    let ray = Ray { origin: v(0, 0, 196608), direction: v(0, 0, -65536) };
    let hit = head_on_hit();
    for seed in 0..40u32 {
        let mut rng = DefaultRng::new(seed);
        let sc = m.scatter(&ray, &hit, &mut rng).expect("diffuse paths never absorb");
        assert_eq!((sc.color.x.raw, sc.color.y.raw, sc.color.z.raw), (32768, 32768, 32768));
        assert_eq!(sc.ray.origin.z.raw, 65536);
    }
}

#[test]
fn smooth_metal_reflects_exactly() {
    let m = EnumMaterial::new_metal(v(52428, 52428, 52428), Fx::from_raw(0));
    let ray = Ray { origin: v(0, 65536, 0), direction: v(65536, -65536, 0) };
    let hit = RayPayload {
        position: v(65536, 0, 0),
        normal: v(0, 65536, 0),
        is_miss: Bool32::new(false),
        material: 0,
        front_face: Bool32::new(true),
    };
    let mut rng = DefaultRng::new(5);
    let sc = m.scatter(&ray, &hit, &mut rng).expect("a head-on mirror bounce scatters");
    assert_eq!(
        (sc.ray.direction.x.raw, sc.ray.direction.y.raw, sc.ray.direction.z.raw),
        (46341, 46341, 0),
    );
    assert_eq!(sc.color.x.raw, 52428);
}

#[test]
fn fuzzy_metal_absorbs_grazing_rays_sometimes() {
    // roughness one, reflection nearly tangent to the surface: the
    // perturbed direction dips below the surface for many draws
    let m = EnumMaterial::new_metal(v(52428, 52428, 52428), Fx::from_raw(65536));
    let ray = Ray { origin: v(-655360, 656, 0), direction: v(65536, -656, 0) };
    let hit = RayPayload {
        position: v(0, 0, 0),
        normal: v(0, 65536, 0),
        is_miss: Bool32::new(false),
        material: 0,
        front_face: Bool32::new(true),
    };
    let mut absorbed = 0;
    let mut scattered = 0;
    for seed in 0..200u32 {
        let mut rng = DefaultRng::new(seed);
        match m.scatter(&ray, &hit, &mut rng) {
            Some(_) => scattered += 1,
            None => absorbed += 1,
        }
    }
    assert!(absorbed > 0);
    assert!(scattered > 0);
}

#[test]
fn dielectric_with_unit_index_passes_straight_through() {
    let m = EnumMaterial::new_dielectric(Fx::from_raw(65536));
    let ray = Ray { origin: v(0, 0, 196608), direction: v(0, 0, -65536) };
    let hit = head_on_hit();
    for seed in 0..20u32 {
        let mut rng = DefaultRng::new(seed);
        let sc = m.scatter(&ray, &hit, &mut rng).expect("dielectrics never absorb");
        assert_eq!(
            (sc.ray.direction.x.raw, sc.ray.direction.y.raw, sc.ray.direction.z.raw),
            (0, 0, -65536),
        );
        assert_eq!((sc.color.x.raw, sc.color.y.raw, sc.color.z.raw), (65536, 65536, 65536));
    }
}

#[test]
fn dielectric_reflects_under_total_internal_reflection() {
    // exiting the glass (back face) at a shallow angle: reflection
    let m = EnumMaterial::new_dielectric(Fx::from_raw(98304));
    let ray = Ray { origin: v(0, 65536, 0), direction: v(65536, -16384, 0) };
    let hit = RayPayload {
        position: v(65536, 0, 0),
        normal: v(0, 65536, 0),
        is_miss: Bool32::new(false),
        material: 0,
        front_face: Bool32::new(false),
    };
    let mut rng = DefaultRng::new(11);
    let sc = m.scatter(&ray, &hit, &mut rng).expect("dielectrics never absorb");
    // the scattered ray leaves the surface upward: it was reflected
    assert!(sc.ray.direction.y.raw > 0);
}
