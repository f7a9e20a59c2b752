use multipass::fixed::smoothmin;
use multipass::sdf::{
    fold, march, normal, rotate_xy, rotate_xz, sphere_dist, spike_dist, vlen, vnormalize, Ray,
    Scene, Sphere, Spike, Vec3,
};

fn unit_sphere_scene(radius: i64) -> Scene {
    Scene {
        spheres: vec![Sphere { center: Vec3 { x: 0, y: 0, z: 0 }, radius }],
        spikes: vec![],
        blend: 300,
    }
}

#[test]
fn vlen_axis_and_pythagorean() {
    assert_eq!(vlen(Vec3 { x: 0, y: 0, z: -7000 }), 7000);
    assert_eq!(vlen(Vec3 { x: 3000, y: 4000, z: 0 }), 5000);
    assert_eq!(vlen(Vec3 { x: 0, y: 0, z: 0 }), 0);
}

#[test]
fn vnormalize_unit_length_components() {
    let n = vnormalize(Vec3 { x: 0, y: 0, z: 7000 });
    assert_eq!(n, Vec3 { x: 0, y: 0, z: 1000 });
    let n = vnormalize(Vec3 { x: 3000, y: 4000, z: 0 });
    assert_eq!(n, Vec3 { x: 600, y: 800, z: 0 });
    // the zero vector maps to the unit +z direction
    let n = vnormalize(Vec3 { x: 0, y: 0, z: 0 });
    assert_eq!(n, Vec3 { x: 0, y: 0, z: 1000 });
}

#[test]
fn sphere_distance_signs() {
    let s = Sphere { center: Vec3 { x: 0, y: 0, z: 0 }, radius: 300 };
    // outside: positive, exact along an axis
    assert_eq!(sphere_dist(&s, Vec3 { x: 0, y: 0, z: -7000 }), 6700);
    // on the surface: zero
    assert_eq!(sphere_dist(&s, Vec3 { x: 300, y: 0, z: 0 }), 0);
    // inside: negative
    assert_eq!(sphere_dist(&s, Vec3 { x: 0, y: 100, z: 0 }), -200);
}

#[test]
fn map_blends_two_spheres() {
    let scene = Scene {
        spheres: vec![
            Sphere { center: Vec3 { x: 0, y: 0, z: 0 }, radius: 300 },
            Sphere { center: Vec3 { x: 10_000, y: 0, z: 0 }, radius: 300 },
        ],
        spikes: vec![],
        blend: 300,
    };
    // far from both: the blend reduces to the plain minimum
    let p = Vec3 { x: 0, y: 0, z: -7000 };
    let d = multipass::sdf::map(&scene, p);
    assert_eq!(d, 6700);
    // midway between the spheres the distances are equal: dip of blend/4
    let mid = Vec3 { x: 5_000, y: 0, z: 0 };
    assert_eq!(multipass::sdf::map(&scene, mid), 4700 - 300 / 4);
}

#[test]
fn march_head_on_sphere_converges_to_depth_minus_radius() {
    // from (0,0,-D) along +z against a sphere of radius r at the origin
    // the march lands within the threshold of D - r
    let scene = unit_sphere_scene(300);
    let ray = Ray { origin: Vec3 { x: 0, y: 0, z: -7000 }, dir: Vec3 { x: 0, y: 0, z: 1000 } };
    let hit = march(&scene, &ray);
    assert_eq!(hit, Some(6700));
    assert!((hit.unwrap() - 6700).abs() <= 1);
}

#[test]
fn march_head_on_other_depths() {
    let scene = unit_sphere_scene(500);
    let ray = Ray { origin: Vec3 { x: 0, y: 0, z: -2000 }, dir: Vec3 { x: 0, y: 0, z: 1000 } };
    assert_eq!(march(&scene, &ray), Some(1500));
}

#[test]
fn march_distant_scene_yields_background() {
    // the scene sits far off the ray: no step ever converges, no false
    // positive hit
    let scene = Scene {
        spheres: vec![Sphere { center: Vec3 { x: 0, y: 50_000_000, z: 0 }, radius: 1000 }],
        spikes: vec![],
        blend: 300,
    };
    let ray = Ray { origin: Vec3 { x: 0, y: 0, z: -7000 }, dir: Vec3 { x: 0, y: 0, z: 1000 } };
    assert_eq!(march(&scene, &ray), None);
}

#[test]
fn normal_points_back_toward_ray() {
    // head-on hit point just in front of the sphere: the estimated
    // normal leans toward -z
    let scene = unit_sphere_scene(300);
    let n = normal(&scene, Vec3 { x: 0, y: 0, z: -301 });
    assert!(n.z < 0);
}

#[test]
fn fold_reflects_only_the_negative_side() {
    let d = Vec3 { x: 0, y: 0, z: 1000 };
    // positive side of the plane: untouched
    let p = Vec3 { x: 0, y: 0, z: 1000 };
    assert_eq!(fold(p, d), p);
    // negative side: reflected across the plane
    let q = Vec3 { x: 0, y: 0, z: -1000 };
    assert_eq!(fold(q, d), Vec3 { x: 0, y: 0, z: 1000 });
    // a point in the plane stays put
    let r = Vec3 { x: 500, y: 0, z: 0 };
    assert_eq!(fold(r, d), r);
}

#[test]
fn quarter_turn_rotations_are_exact() {
    let p = Vec3 { x: 1000, y: 0, z: 0 };
    // cosine zero, sine one: the x,y turn carries +x onto +y
    assert_eq!(rotate_xy(p, 0, 1000), Vec3 { x: 0, y: 1000, z: 0 });
    // and the x,z turn carries +x onto +z
    assert_eq!(rotate_xz(p, 0, 1000), Vec3 { x: 0, y: 0, z: 1000 });
}

#[test]
fn spike_blends_into_the_scene_map() {
    let spike = Spike { aperture: 1700 };
    let p = Vec3 { x: 0, y: 0, z: -7000 };
    // the spike distance is a pure function of its inputs
    assert_eq!(spike_dist(&spike, p), spike_dist(&spike, p));
    let sphere = Sphere { center: Vec3 { x: 0, y: 0, z: 0 }, radius: 300 };
    let scene = Scene { spheres: vec![sphere], spikes: vec![spike], blend: 300 };
    // the map is the smooth-minimum blend of the two primitives
    let expected = smoothmin(sphere_dist(&sphere, p), spike_dist(&spike, p), 300);
    assert_eq!(multipass::sdf::map(&scene, p), expected);
}
