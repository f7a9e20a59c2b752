use multipass::image::{
    apply_op, blur, gradient, noise, sample_off, sharpen, vignette, Op, Texture,
};

fn tex_from(rows: Vec<Vec<i64>>) -> Texture {
    let height = rows.len();
    let width = rows[0].len();
    Texture { width, height, data: rows }
}

#[test]
fn sampling_wraps_at_edges() {
    let t = tex_from(vec![vec![1, 2], vec![3, 4]]);
    assert_eq!(sample_off(&t, 0, 0, 0, 0), 1);
    assert_eq!(sample_off(&t, 0, 0, -1, 0), 2);
    assert_eq!(sample_off(&t, 0, 0, 0, -1), 3);
    assert_eq!(sample_off(&t, 1, 1, 1, 1), 1);
}

#[test]
fn gradient_of_constant_field_is_zero() {
    let t = tex_from(vec![vec![7, 7, 7], vec![7, 7, 7], vec![7, 7, 7]]);
    assert_eq!(gradient(&t, 1, 1), (0, 0));
}

#[test]
fn gradient_central_difference() {
    let t = tex_from(vec![vec![0, 0, 0], vec![10, 20, 40], vec![0, 0, 0]]);
    let (gx, gy) = gradient(&t, 1, 1);
    assert_eq!(gx, 40 - 10);
    assert_eq!(gy, 0 - 0);
}

#[test]
fn blur_averages_the_neighbourhood() {
    let t = tex_from(vec![vec![0, 1, 2], vec![3, 4, 5], vec![6, 7, 8]]);
    // all nine samples: (0+..+8)/9 = 4
    assert_eq!(blur(&t, 1, 1), 4);
    // a constant field blurs to itself
    let c = tex_from(vec![vec![9, 9], vec![9, 9]]);
    assert_eq!(blur(&c, 0, 0), 9);
}

#[test]
fn sharpen_fixes_constant_field() {
    let c = tex_from(vec![vec![250, 250], vec![250, 250]]);
    // no deviation from the blur: sharpening changes nothing
    assert_eq!(sharpen(&c, 0, 0, 1000), 250);
}

#[test]
fn sharpen_amplifies_deviation() {
    let t = tex_from(vec![vec![0, 0, 0], vec![0, 900, 0], vec![0, 0, 0]]);
    // centre: blur = 100, deviation 800, strength one doubles it onto
    // the sample: 900 + 800 = 1700
    assert_eq!(sharpen(&t, 1, 1, 1000), 1700);
}

#[test]
fn vignette_is_dark_at_the_border() {
    let t = tex_from(vec![vec![1000, 1000], vec![1000, 1000]]);
    // the falloff weight vanishes where a normalized coordinate is zero
    assert_eq!(vignette(&t, 0, 0), 0);
    assert_eq!(vignette(&t, 0, 1), 0);
}

#[test]
fn noise_exact_values_and_determinism() {
    assert_eq!(noise(0, 0, 0), 40_507 % 1000);
    assert_eq!(noise(1, 0, 0), (127_817 + 40_507) % 1_000_003 % 1000);
    assert_eq!(noise(3, 5, 7), noise(3, 5, 7));
    assert_ne!(noise(0, 0, 0), noise(1, 0, 0));
}

#[test]
fn apply_op_writes_a_fresh_texture_of_the_same_size() {
    let t = tex_from(vec![vec![0, 100, 200], vec![300, 400, 500], vec![600, 700, 800]]);
    let out = apply_op(&Op::Blur, &t);
    assert_eq!(out.width, 3);
    assert_eq!(out.height, 3);
    assert_eq!(out.data[1][1], 400);
    // the source is untouched
    assert_eq!(t.data[1][1], 400);
    assert_eq!(t.data[0][0], 0);
}

#[test]
fn reseed_op_ignores_the_source() {
    let a = tex_from(vec![vec![0, 0], vec![0, 0]]);
    let b = tex_from(vec![vec![999, 1], vec![5, 7]]);
    let na = apply_op(&Op::Reseed { seed: 42 }, &a);
    let nb = apply_op(&Op::Reseed { seed: 42 }, &b);
    assert_eq!(na.data, nb.data);
    assert_eq!(na.data[0][0], noise(0, 0, 42));
    assert_eq!(na.data[1][0], noise(0, 1, 42));
}
