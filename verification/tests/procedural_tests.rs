//! Tests for the noise library, the trigonometry, the shading stages
//! and the procedural generators.

use sunrender::fixed::{fx_mul, FX_ONE};
use sunrender::fragment::Fragment;
use sunrender::procedural::{
    fbm, fbm3, generate_ring, generate_uv_sphere, hash_u32, lattice_rand, lerp,
    smoothstep, value_noise3,
};
use sunrender::shader::{
    apply_vertex_shader, fragment_shader, temperature_to_rgb, VertexShader,
};
use sunrender::trig::{cos_fx, sin_cos_fx, sin_fx, FX_HALF_PI, FX_PI};
use sunrender::uniforms::{color_to_vec3, vec3_to_color, Rgb, Uniforms};
use sunrender::vec::{Vec2, Vec3};

const ONE: i64 = 65536;

#[test]
fn trig_at_zero_is_exact() {
    assert_eq!(sin_cos_fx(0), (0, ONE));
    assert_eq!(sin_fx(0), 0);
    assert_eq!(cos_fx(0), ONE);
}

#[test]
fn trig_at_quarter_and_half_turns() {
    let (s, c) = sin_cos_fx(FX_HALF_PI);
    assert!((s - ONE).abs() <= 16);
    assert!(c.abs() <= 16);
    let (s2, c2) = sin_cos_fx(FX_PI);
    assert!(s2.abs() <= 16);
    assert!((c2 + ONE).abs() <= 16);
    // A negative angle reduces into the same turn.
    let (s3, c3) = sin_cos_fx(-FX_HALF_PI);
    assert!((s3 + ONE).abs() <= 16);
    assert!(c3.abs() <= 16);
}

#[test]
fn trig_is_self_consistent() {
    // sin^2 + cos^2 stays near one across a sweep of angles.
    let mut a: i64 = -400000;
    while a < 400000 {
        let (s, c) = sin_cos_fx(a);
        let n = fx_mul(s, s) + fx_mul(c, c);
        assert!((n - ONE).abs() <= 64, "angle {} gave norm {}", a, n);
        a += 7919;
    }
}

#[test]
fn hash_is_deterministic_and_mixes() {
    assert_eq!(hash_u32(12345), hash_u32(12345));
    assert_ne!(hash_u32(1), hash_u32(2));
    assert_eq!(lattice_rand(3, -4, 5), lattice_rand(3, -4, 5));
    let r = lattice_rand(100, 200, 300);
    assert!(0 <= r && r < ONE);
}

#[test]
fn smoothstep_curve_values() {
    assert_eq!(smoothstep(0), 0);
    assert_eq!(smoothstep(ONE), ONE);
    assert_eq!(smoothstep(ONE / 2), ONE / 2);
    let quarter = smoothstep(ONE / 4);
    // 3/64 + ... : the quarter point eases to 5/32 of one.
    assert_eq!(quarter, 5 * ONE / 32);
}

#[test]
fn lerp_blends_endpoints() {
    assert_eq!(lerp(100, 300, 0), 100);
    assert_eq!(lerp(100, 300, ONE), 300);
    assert_eq!(lerp(100, 300, ONE / 2), 200);
    assert_eq!(lerp(300, 100, ONE / 2), 200);
}

#[test]
fn value_noise_is_deterministic() {
    let p = Vec3 { x: 123456, y: -654321, z: 424242 };
    let first = value_noise3(p);
    let second = value_noise3(p);
    assert_eq!(first, second);
    let third = value_noise3(Vec3 { x: 123456, y: -654321, z: 424242 });
    assert_eq!(first, third);
}

#[test]
fn value_noise_stays_in_unit_range() {
    let mut x: i64 = -10 * ONE;
    while x < 10 * ONE {
        let n = value_noise3(Vec3 { x, y: x / 3, z: -x / 2 });
        assert!(0 <= n && n <= ONE);
        x += 31415;
    }
}

#[test]
fn fbm_is_deterministic_and_bounded() {
    let p = Vec3 { x: 3 * ONE / 2, y: -2 * ONE, z: 5 * ONE / 4 };
    let a = fbm(p, 4, 2 * ONE, ONE / 2);
    let b = fbm(p, 4, 2 * ONE, ONE / 2);
    assert_eq!(a, b);
    assert!(0 <= a && a <= 64 * (ONE / 2));
}

#[test]
fn fbm_tail_shrinks_as_gain_falls() {
    // The high-frequency contribution (all octaves after the first)
    // decreases monotonically with the gain.
    let p = Vec3 { x: 3 * ONE / 2, y: -2 * ONE, z: 5 * ONE / 4 };
    let first = fx_mul(ONE / 2, value_noise3(p));
    let gains = [0i64, 16384, 32768, 49152, ONE];
    let mut prev_tail: i64 = -1;
    for g in gains.iter() {
        let tail = fbm(p, 5, 2 * ONE, *g) - first;
        assert!(tail >= 0);
        assert!(tail >= prev_tail);
        prev_tail = tail;
    }
}

#[test]
fn fbm3_is_normalized_and_bounded() {
    let p = Vec3 { x: ONE / 3, y: 2 * ONE, z: -ONE };
    let a = fbm3(p, 5, 2 * ONE, 36045);
    let b = fbm3(p, 5, 2 * ONE, 36045);
    assert_eq!(a, b);
    assert!(-ONE <= a && a <= ONE);
    assert_eq!(fbm3(p, 0, 2 * ONE, ONE / 2), 0);
}

#[test]
fn sphere_has_expected_vertex_count_and_radius() {
    let radius: i64 = 3 * ONE;
    let verts = generate_uv_sphere(radius, 24, 32);
    assert_eq!(verts.len(), 24 * 32 * 6);
    for v in verts.iter() {
        let x = v.x as f64 / 65536.0;
        let y = v.y as f64 / 65536.0;
        let z = v.z as f64 / 65536.0;
        let d = (x * x + y * y + z * z).sqrt();
        assert!((d - 3.0).abs() <= 1.0e-4, "vertex at distance {}", d);
    }
}

#[test]
fn sphere_clamps_degenerate_segment_counts() {
    let verts = generate_uv_sphere(ONE, 0, 1);
    assert_eq!(verts.len(), 3 * 3 * 6);
}

#[test]
fn ring_lies_flat_between_radii() {
    let inner: i64 = ONE;
    let outer: i64 = 2 * ONE;
    let verts = generate_ring(inner, outer, 8);
    assert_eq!(verts.len(), 8 * 6);
    for v in verts.iter() {
        assert_eq!(v.y, 0);
        let x = v.x as f64 / 65536.0;
        let z = v.z as f64 / 65536.0;
        let d = (x * x + z * z).sqrt();
        assert!(d >= 1.0 - 1.0e-4 && d <= 2.0 + 1.0e-4);
    }
}

#[test]
fn identity_vertex_shader_passes_through() {
    let v = Vec3 { x: 123, y: -456, z: 789 };
    assert_eq!(apply_vertex_shader(v, &VertexShader::Identity, 42), v);
}

#[test]
fn solar_flare_displaces_along_direction() {
    let v = Vec3 { x: 3 * ONE, y: 0, z: 0 };
    let shaded = apply_vertex_shader(v, &VertexShader::SolarFlare, ONE);
    // Displacement is along +x for a vertex on the x axis, bounded by
    // the flare amplitude, and leaves the other axes nearly unchanged.
    assert!(shaded.y.abs() <= 2);
    assert!(shaded.z.abs() <= 2);
    assert!((shaded.x - v.x).abs() <= 22938 + 2);
    // Deterministic across calls.
    assert_eq!(shaded, apply_vertex_shader(v, &VertexShader::SolarFlare, ONE));
}

#[test]
fn temperature_gradient_three_stops() {
    let cold = temperature_to_rgb(0);
    assert_eq!(cold, Vec3 { x: ONE, y: 13107, z: 0 });
    let mid = temperature_to_rgb(ONE / 2);
    assert_eq!(mid, Vec3 { x: ONE, y: ONE, z: 0 });
    let hot = temperature_to_rgb(ONE);
    assert_eq!(hot, Vec3 { x: ONE, y: ONE, z: 19661 });
    // Out-of-range temperatures clamp.
    assert_eq!(temperature_to_rgb(-5 * ONE), cold);
    assert_eq!(temperature_to_rgb(5 * ONE), hot);
}

#[test]
fn fragment_shader_is_deterministic_and_clamped() {
    let frag = Fragment::new(
        3, 4,
        Vec3 { x: 0, y: 0, z: 0 },
        ONE / 2,
        Vec3 { x: ONE / 2, y: ONE / 3, z: -ONE / 4 },
    );
    let u = Uniforms {
        time: 3 * ONE / 2,
        resolution: Vec2 { x: 1300 * ONE, y: 600 * ONE },
        temp: ONE / 2,
        intensity: ONE,
    };
    let c1 = fragment_shader(&frag, &u);
    let c2 = fragment_shader(&frag, &u);
    assert_eq!(c1, c2);
    assert!(0 <= c1.x && c1.x <= ONE);
    assert!(0 <= c1.y && c1.y <= ONE);
    assert!(0 <= c1.z && c1.z <= ONE);
}

#[test]
fn color_conversions_are_exact() {
    let v = color_to_vec3(Rgb { r: 255, g: 0, b: 128 });
    assert_eq!(v.x, ONE);
    assert_eq!(v.y, 0);
    assert_eq!(v.z, 128 * ONE / 255);
    let c = vec3_to_color(Vec3 { x: ONE, y: 0, z: ONE / 2 });
    assert_eq!(c, Rgb { r: 255, g: 0, b: 127 });
    // Out-of-range channels clamp before scaling.
    let c2 = vec3_to_color(Vec3 { x: 3 * ONE, y: -ONE, z: 0 });
    assert_eq!(c2, Rgb { r: 255, g: 0, b: 0 });
}
