use multipass::pipeline::FrameState;
use multipass::render::{camera, osc, render_frame, render_pixel, shade, wave, Color, CAM_AMP};
use multipass::sdf::{Scene, Sphere, Spike, Vec3};

fn demo_scene() -> Scene {
    Scene {
        spheres: vec![
            Sphere { center: Vec3 { x: 0, y: 0, z: 0 }, radius: 300 },
            Sphere { center: Vec3 { x: 900, y: 0, z: 0 }, radius: 200 },
        ],
        spikes: vec![Spike { aperture: 1700 }],
        blend: 300,
    }
}

#[test]
fn oscillator_is_periodic_and_bounded() {
    assert_eq!(osc(0, 500, 100), -100);
    assert_eq!(osc(500, 500, 100), 100);
    assert_eq!(osc(1000, 500, 100), -100);
    for t in 0..50 {
        let v = osc(t * 37, 500, 100);
        assert!(-100 <= v && v <= 100);
    }
}

#[test]
fn camera_at_time_zero() {
    // the x sway starts at zero like a sine, the y sway at its crest
    // like a cosine
    let ro = camera(0);
    assert_eq!(ro, Vec3 { x: 0, y: CAM_AMP, z: -7000 });
}

#[test]
fn wave_is_bounded_and_periodic() {
    assert_eq!(wave(0), 1000);
    assert_eq!(wave(3141), -1000);
    assert_eq!(wave(6282), 1000);
    for u in 0..60 {
        let v = wave(u * 123);
        assert!(-1000 <= v && v <= 1000);
    }
}

#[test]
fn shade_head_on_normal() {
    // a normal facing straight back at the viewer lights the cool
    // channels and leaves the warm channel to the ambient term alone
    let c = shade(Vec3 { x: 0, y: 0, z: -1000 }, 6700);
    assert!(c.g > 0);
    assert!(c.b > 0);
    assert_eq!(c, shade(Vec3 { x: 0, y: 0, z: -1000 }, 6700));
}

#[test]
fn first_frame_is_deterministic() {
    // elapsed time zero, frame index zero: the raymarch pass yields a
    // reproducible image
    let scene = demo_scene();
    let fs = FrameState::start();
    let a = render_frame(&scene, &fs, 16, 12);
    let b = render_frame(&scene, &fs, 16, 12);
    assert_eq!(a, b);
    assert_eq!(a.len(), 12);
    assert_eq!(a[0].len(), 16);
}

#[test]
fn centre_pixel_hits_and_corner_misses() {
    let scene = demo_scene();
    let fs = FrameState::start();
    // the centre ray passes near the origin sphere: a lit pixel
    let centre = render_pixel(&scene, &fs, 8, 6, 16, 12);
    assert_ne!(centre, Color { r: 0, g: 0, b: 0 });
    // the corner ray leaves the scene entirely: background black
    let corner = render_pixel(&scene, &fs, 0, 0, 16, 12);
    assert_eq!(corner, Color { r: 0, g: 0, b: 0 });
    // a whole frame agrees with its per-pixel evaluation
    let img = render_frame(&scene, &fs, 16, 12);
    assert_eq!(img[6][8], centre);
    assert_eq!(img[0][0], corner);
}
