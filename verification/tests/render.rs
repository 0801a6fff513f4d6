//! End-to-end tests: camera rays, full paths, and the per-pixel sample,
//! checking determinism and energy nonnegativity.

use pathtrace::camera::{tan_half, Camera};
use pathtrace::fixed::Fx;
use pathtrace::integrator::{pixel_seed, render_pixel, trace_path};
use pathtrace::material::EnumMaterial;
use pathtrace::ray::Ray;
use pathtrace::rng::DefaultRng;
use pathtrace::scene::SphereInstance;
use pathtrace::vec3::Vec3;

fn v(x: i64, y: i64, z: i64) -> Vec3 {
    Vec3::new(Fx::from_raw(x), Fx::from_raw(y), Fx::from_raw(z))
}

fn gray_sphere_scene() -> (Vec<SphereInstance>, Vec<EnumMaterial>) {
    let instances = vec![SphereInstance { center: v(0, 0, 0), material_index: 0 }];
    let materials = vec![EnumMaterial::new_lambertian(v(32768, 32768, 32768))];
    (instances, materials)
}

fn test_camera() -> Camera {
    // eye on the positive z-axis looking down -z, pinhole
    Camera::new(
        v(0, 0, 327680),
        v(0, 0, 0),
        v(0, 65536, 0),
        Fx::from_raw(39322),  // 0.6 radians
        Fx::from_raw(65536),
        Fx::from_raw(0),
        Fx::from_raw(327680),
    )
}

#[test]
fn tan_half_of_zero_is_zero() {
    assert_eq!(tan_half(Fx::from_raw(0)).raw, 0);
}

#[test]
fn tan_half_of_right_angle_is_near_one() {
    // tan(pi/4) = 1; the truncated series lands within one percent
    let t = tan_half(Fx::from_raw(102944)).raw;
    assert!((t - 65536).abs() < 655, "tan_half gave {t}");
}

#[test]
fn camera_is_valid_and_pinhole_rays_start_at_the_eye() {
    let cam = test_camera();
    assert!(cam.is_valid());
    let mut rng = DefaultRng::new(9);
    let r = cam.get_ray(Fx::from_raw(32768), Fx::from_raw(32768), &mut rng);
    assert_eq!((r.origin.x.raw, r.origin.y.raw, r.origin.z.raw), (0, 0, 327680));
    // the central ray points toward the scene
    assert!(r.direction.z.raw < 0);
}

#[test]
fn pixel_seed_mixes_index_and_frame() {
    assert_eq!(pixel_seed(3, 2, 10, 0), 23);
    assert_eq!(pixel_seed(3, 2, 10, 0xffff_ffff), !23u32);
}

#[test]
fn identical_paths_are_bit_identical() {
    let (instances, materials) = gray_sphere_scene();
    let ray = Ray { origin: v(0, 0, 196608), direction: v(0, 0, -65536) };
    let mut rng1 = DefaultRng::new(123);
    let c1 = trace_path(&instances, &materials, ray, &mut rng1);
    let mut rng2 = DefaultRng::new(123);
    let c2 = trace_path(&instances, &materials, ray, &mut rng2);
    assert_eq!(c1, c2);
    assert_eq!(rng1.state, rng2.state);
}

#[test]
fn center_pixel_sample_is_reproducible() {
    let (instances, materials) = gray_sphere_scene();
    let cam = test_camera();
    assert!(cam.is_valid());
    let c1 = render_pixel(&instances, &materials, &cam, 5, 5, 11, 11, 77);
    let c2 = render_pixel(&instances, &materials, &cam, 5, 5, 11, 11, 77);
    assert_eq!(c1, c2);
    // the golden sample: one gray bounce into the sky gradient
    assert_eq!((c1.x.raw, c1.y.raw, c1.z.raw), (24759, 27962, 32768));
    assert!(c1.x.raw >= 0 && c1.y.raw >= 0 && c1.z.raw >= 0);
    assert!(c1.x.raw <= 131072 && c1.y.raw <= 131072 && c1.z.raw <= 131072);
}

#[test]
fn center_pixel_hits_the_sphere() {
    // the gray sphere darkens the sample: some component falls below
    // the dimmest background value, which a pure miss cannot produce
    let (instances, materials) = gray_sphere_scene();
    let empty: Vec<SphereInstance> = Vec::new();
    let cam = test_camera();
    let with_sphere = render_pixel(&instances, &materials, &cam, 5, 5, 11, 11, 77);
    let without = render_pixel(&empty, &materials, &cam, 5, 5, 11, 11, 77);
    assert_ne!(with_sphere, without);
}

#[test]
fn samples_are_never_negative() {
    let (instances, materials) = gray_sphere_scene();
    let cam = test_camera();
    for seed in 0..8u32 {
        for x in 0..6u32 {
            for y in 0..6u32 {
                let c = render_pixel(&instances, &materials, &cam, x, y, 6, 6, seed);
                assert!(c.x.raw >= 0 && c.y.raw >= 0 && c.z.raw >= 0);
            }
        }
    }
}

#[test]
fn mixed_scene_samples_are_never_negative() {
    let instances = vec![
        SphereInstance { center: v(0, -6553600, 0), material_index: 0 },
        SphereInstance { center: v(-98304, 0, 0), material_index: 1 },
        SphereInstance { center: v(0, 0, 0), material_index: 2 },
        SphereInstance { center: v(98304, 0, 0), material_index: 3 },
    ];
    let materials = vec![
        EnumMaterial::new_lambertian(v(32768, 39321, 6553)),
        EnumMaterial::new_lambertian(v(26214, 13107, 6553)),
        EnumMaterial::new_dielectric(Fx::from_raw(98304)),
        EnumMaterial::new_metal(v(45875, 39321, 32768), Fx::from_raw(0)),
    ];
    let cam = Camera::new(
        v(851968, 131072, 196608),
        v(0, 0, 0),
        v(0, 65536, 0),
        Fx::from_raw(22883),  // about twenty degrees
        Fx::from_raw(87381),  // 4:3
        Fx::from_raw(6553),
        Fx::from_raw(655360),
    );
    assert!(cam.is_valid());
    for x in 0..8u32 {
        for y in 0..6u32 {
            let c = render_pixel(&instances, &materials, &cam, x, y, 8, 6, 1);
            assert!(c.x.raw >= 0 && c.y.raw >= 0 && c.z.raw >= 0);
            let c2 = render_pixel(&instances, &materials, &cam, x, y, 8, 6, 1);
            assert_eq!(c, c2);
        }
    }
}
