//! Tests for the transform, rasterization and framebuffer stages.

use sunrender::fixed::{fx_div, fx_mul, fx_sqrt, fx_floor_units, fx_ceil_units, FX_ONE};
use sunrender::framebuffer::{Framebuffer, DEPTH_FAR};
use sunrender::fragment::Fragment;
use sunrender::light::Light;
use sunrender::matrix::{
    create_model_matrix, create_projection_matrix, create_view_matrix,
    create_viewport_matrix, multiply_matrix_matrix, multiply_matrix_vector4,
    new_matrix3, new_matrix4, transform, Mat4,
};
use sunrender::render::{assemble_triangles, render, TriangleRecord};
use sunrender::shader::VertexShader;
use sunrender::triangle::{barycentric_coordinates, triangle};
use sunrender::uniforms::Rgb;
use sunrender::vec::{Vec2, Vec3};

const ONE: i64 = 65536;

fn fx(v: i64) -> i64 {
    v * ONE
}

fn ident() -> Mat4 {
    new_matrix4(
        ONE, 0, 0, 0,
        0, ONE, 0, 0,
        0, 0, ONE, 0,
        0, 0, 0, ONE,
    )
}

#[test]
fn fixed_point_basics() {
    assert_eq!(fx_mul(fx(3), ONE / 2), fx(3) / 2);
    assert_eq!(fx_mul(-fx(3), ONE / 2), -(fx(3) / 2));
    assert_eq!(fx_div(ONE, 2 * ONE), ONE / 2);
    assert_eq!(fx_sqrt(4 * ONE), 2 * ONE);
    assert_eq!(fx_floor_units(-3 * ONE / 2), -2);
    assert_eq!(fx_ceil_units(-3 * ONE / 2), -1);
    assert_eq!(fx_floor_units(3 * ONE / 2), 1);
    assert_eq!(fx_ceil_units(3 * ONE / 2), 2);
}

#[test]
fn model_matrix_pure_translation_moves_points() {
    let t = Vec3 { x: fx(1), y: fx(2), z: fx(3) };
    let rot = Vec3 { x: 0, y: 0, z: 0 };
    let m = create_model_matrix(t, ONE, rot);
    let v = sunrender::vec::Vec4 { x: fx(5), y: -fx(7), z: fx(9), w: ONE };
    let r = multiply_matrix_vector4(&m, &v);
    assert_eq!(r.x, fx(6));
    assert_eq!(r.y, -fx(5));
    assert_eq!(r.z, fx(12));
    assert_eq!(r.w, ONE);
}

#[test]
fn model_matrix_scale_scales_points() {
    let t = Vec3 { x: 0, y: 0, z: 0 };
    let rot = Vec3 { x: 0, y: 0, z: 0 };
    let m = create_model_matrix(t, 2 * ONE, rot);
    let v = sunrender::vec::Vec4 { x: fx(3), y: fx(4), z: -fx(5), w: ONE };
    let r = multiply_matrix_vector4(&m, &v);
    assert_eq!(r.x, fx(6));
    assert_eq!(r.y, fx(8));
    assert_eq!(r.z, -fx(10));
}

#[test]
fn view_matrix_maps_eye_to_origin() {
    let eye = Vec3 { x: fx(4), y: -fx(2), z: fx(17) };
    let target = Vec3 { x: 0, y: 0, z: 0 };
    let up = Vec3 { x: 0, y: ONE, z: 0 };
    let view = create_view_matrix(eye, target, up);
    let r = multiply_matrix_vector4(
        &view, &sunrender::vec::Vec4 { x: eye.x, y: eye.y, z: eye.z, w: ONE });
    assert_eq!(r.x, 0);
    assert_eq!(r.y, 0);
    assert_eq!(r.z, 0);
    assert_eq!(r.w, ONE);
}

#[test]
fn view_matrix_points_target_down_negative_z() {
    let eye = Vec3 { x: 0, y: 0, z: fx(17) };
    let target = Vec3 { x: 0, y: 0, z: 0 };
    let up = Vec3 { x: 0, y: ONE, z: 0 };
    let view = create_view_matrix(eye, target, up);
    let r = multiply_matrix_vector4(
        &view, &sunrender::vec::Vec4 { x: 0, y: 0, z: 0, w: ONE });
    // The target sits 17 units down the negative z axis of the camera
    // frame, up to fixed-point rounding.
    assert!(r.x.abs() <= 8);
    assert!(r.y.abs() <= 8);
    assert!((r.z + fx(17)).abs() <= 8);
}

#[test]
fn matrix_product_against_identity() {
    let m = new_matrix3(
        ONE, 2 * ONE, 0,
        0, ONE, 0,
        -ONE, 0, ONE,
    );
    let p = multiply_matrix_matrix(&ident(), &m);
    assert_eq!(p, m);
    let q = multiply_matrix_matrix(&m, &ident());
    assert_eq!(q, m);
}

#[test]
fn projection_matrix_shape() {
    // fov 60 degrees (pi/3), near 0.5, far 100.
    let p = create_projection_matrix(205887 / 3, 2 * ONE, ONE / 2, 100 * ONE);
    assert_eq!(p.m01, 0);
    assert_eq!(p.m32, -ONE);
    assert_eq!(p.m33, 0);
    assert!(p.m00 > 0);
    assert!(p.m11 > 0);
    assert!(p.m22 < 0);
    assert!(p.m23 < 0);
}

#[test]
fn viewport_matrix_maps_ndc_corners() {
    let vp = create_viewport_matrix(0, 0, fx(100), fx(60));
    // NDC (-1, -1) maps to the left edge, bottom row (y flipped).
    let r = multiply_matrix_vector4(
        &vp, &sunrender::vec::Vec4 { x: -ONE, y: -ONE, z: 0, w: ONE });
    assert_eq!(r.x, 0);
    assert_eq!(r.y, fx(60));
    // NDC (1, 1) maps to the right edge, top row.
    let r2 = multiply_matrix_vector4(
        &vp, &sunrender::vec::Vec4 { x: ONE, y: ONE, z: fx(1) / 4, w: ONE });
    assert_eq!(r2.x, fx(100));
    assert_eq!(r2.y, 0);
    assert_eq!(r2.z, fx(1) / 4);
}

#[test]
fn transform_with_identity_matrices_is_identity() {
    let id = ident();
    let v = Vec3 { x: fx(10), y: fx(20), z: ONE / 2 };
    let zero = Vec3 { x: 0, y: 0, z: 0 };
    let r = transform(v, zero, ONE, zero, &id, &id, &id);
    assert_eq!(r, Some(v));
}

#[test]
fn barycentric_weights_at_corners() {
    let a = Vec3 { x: fx(0), y: fx(0), z: 0 };
    let b = Vec3 { x: fx(10), y: fx(0), z: 0 };
    let c = Vec3 { x: fx(0), y: fx(10), z: 0 };
    assert_eq!(barycentric_coordinates(a.x, a.y, &a, &b, &c), (ONE, 0, 0));
    assert_eq!(barycentric_coordinates(b.x, b.y, &a, &b, &c), (0, ONE, 0));
    assert_eq!(barycentric_coordinates(c.x, c.y, &a, &b, &c), (0, 0, ONE));
}

#[test]
fn barycentric_degenerate_triangle_rejects() {
    let a = Vec3 { x: fx(1), y: fx(1), z: 0 };
    let b = Vec3 { x: fx(2), y: fx(2), z: 0 };
    let c = Vec3 { x: fx(3), y: fx(3), z: 0 };
    assert_eq!(barycentric_coordinates(fx(2), fx(2), &a, &b, &c), (-ONE, -ONE, -ONE));
    let light = Light::new(Vec3 { x: 0, y: fx(10), z: 0 });
    let frags = triangle(&a, &b, &c, &a, &b, &c, &light);
    assert_eq!(frags.len(), 0);
}

fn draw_fragments(fb: &mut Framebuffer, frags: &Vec<Fragment>, color: Rgb) {
    for f in frags.iter() {
        fb.set_current_color(color);
        let (px, py) = (f.position.x, f.position.y);
        if px >= 0 && py >= 0 && px < fb.width as i64 && py < fb.height as i64 {
            fb.set_pixel(px as u32, py as u32, f.depth);
        }
    }
}

#[test]
fn offscreen_triangle_touches_no_pixels() {
    let bg = Rgb { r: 4, g: 12, b: 36 };
    let mut fb = Framebuffer::new(30, 30, bg);
    let a = Vec3 { x: fx(40), y: fx(40), z: 0 };
    let b = Vec3 { x: fx(50), y: fx(40), z: 0 };
    let c = Vec3 { x: fx(45), y: fx(50), z: 0 };
    let light = Light::new(Vec3 { x: 0, y: fx(10), z: 0 });
    let frags = triangle(&a, &b, &c, &a, &b, &c, &light);
    assert!(frags.len() > 0);
    let white = Rgb { r: 255, g: 255, b: 255 };
    draw_fragments(&mut fb, &frags, white);
    for y in 0..30u32 {
        for x in 0..30u32 {
            assert_eq!(fb.get_color(x, y), bg);
            assert_eq!(fb.get_depth(x, y), DEPTH_FAR);
        }
    }
}

#[test]
fn single_triangle_scenario() {
    let bg = Rgb { r: 4, g: 12, b: 36 };
    let mut fb = Framebuffer::new(30, 30, bg);
    fb.clear();
    let a = Vec3 { x: fx(10), y: fx(10), z: ONE / 2 };
    let b = Vec3 { x: fx(20), y: fx(10), z: ONE / 2 };
    let c = Vec3 { x: fx(15), y: fx(20), z: ONE / 2 };
    let light = Light::new(Vec3 { x: 0, y: fx(10), z: 0 });
    let frags = triangle(&a, &b, &c, &a, &b, &c, &light);
    assert!(frags.len() > 0);
    let mut covered = [[false; 30]; 30];
    for f in frags.iter() {
        // Fragments only within the corner bounding box.
        assert!(10 <= f.position.x && f.position.x <= 20);
        assert!(10 <= f.position.y && f.position.y <= 20);
        // Depth stays at one half up to interpolation rounding.
        assert!((f.depth - ONE / 2).abs() <= 4);
        covered[f.position.y as usize][f.position.x as usize] = true;
    }
    let white = Rgb { r: 255, g: 255, b: 255 };
    draw_fragments(&mut fb, &frags, white);
    // The non-background pixels are exactly the rasterized footprint.
    for y in 0..30u32 {
        for x in 0..30u32 {
            if covered[y as usize][x as usize] {
                assert_eq!(fb.get_color(x, y), white);
                assert!(fb.get_depth(x, y) < DEPTH_FAR);
            } else {
                assert_eq!(fb.get_color(x, y), bg);
                assert_eq!(fb.get_depth(x, y), DEPTH_FAR);
            }
        }
    }
}

#[test]
fn depth_test_write_is_idempotent() {
    let bg = Rgb { r: 0, g: 0, b: 0 };
    let mut fb = Framebuffer::new(4, 4, bg);
    let red = Rgb { r: 200, g: 10, b: 10 };
    fb.set_current_color(red);
    fb.set_pixel(1, 2, 1000);
    let c1 = fb.get_color(1, 2);
    let d1 = fb.get_depth(1, 2);
    fb.set_pixel(1, 2, 1000);
    assert_eq!(fb.get_color(1, 2), c1);
    assert_eq!(fb.get_depth(1, 2), d1);
    assert_eq!(c1, red);
    assert_eq!(d1, 1000);
}

#[test]
fn nearer_fragment_wins_in_either_order() {
    let bg = Rgb { r: 0, g: 0, b: 0 };
    let near = Rgb { r: 10, g: 200, b: 10 };
    let far = Rgb { r: 10, g: 10, b: 200 };

    let mut fb1 = Framebuffer::new(4, 4, bg);
    fb1.set_current_color(near);
    fb1.set_pixel(2, 2, 100);
    fb1.set_current_color(far);
    fb1.set_pixel(2, 2, 500);
    assert_eq!(fb1.get_color(2, 2), near);
    assert_eq!(fb1.get_depth(2, 2), 100);

    let mut fb2 = Framebuffer::new(4, 4, bg);
    fb2.set_current_color(far);
    fb2.set_pixel(2, 2, 500);
    fb2.set_current_color(near);
    fb2.set_pixel(2, 2, 100);
    assert_eq!(fb2.get_color(2, 2), near);
    assert_eq!(fb2.get_depth(2, 2), 100);
}

#[test]
fn out_of_bounds_write_is_discarded() {
    let bg = Rgb { r: 9, g: 9, b: 9 };
    let mut fb = Framebuffer::new(4, 4, bg);
    fb.set_current_color(Rgb { r: 1, g: 2, b: 3 });
    fb.set_pixel(4, 0, 0);
    fb.set_pixel(0, 4, 0);
    fb.set_pixel(1000, 1000, -50);
    for y in 0..4u32 {
        for x in 0..4u32 {
            assert_eq!(fb.get_color(x, y), bg);
            assert_eq!(fb.get_depth(x, y), DEPTH_FAR);
        }
    }
}

#[test]
fn clear_resets_surface_and_depth() {
    let bg = Rgb { r: 4, g: 12, b: 36 };
    let mut fb = Framebuffer::new(8, 8, bg);
    fb.set_current_color(Rgb { r: 255, g: 0, b: 0 });
    fb.set_pixel(3, 3, 77);
    fb.set_background_color(Rgb { r: 1, g: 1, b: 1 });
    fb.clear();
    for y in 0..8u32 {
        for x in 0..8u32 {
            assert_eq!(fb.get_color(x, y), Rgb { r: 1, g: 1, b: 1 });
            assert_eq!(fb.get_depth(x, y), DEPTH_FAR);
        }
    }
}

#[test]
fn assembly_groups_triples_and_drops_remainder() {
    let mk = |x: i64| Vec3 { x: fx(x), y: fx(1), z: 0 };
    let screen: Vec<Option<Vec3>> = vec![
        Some(mk(1)), Some(mk(2)), Some(mk(3)),
        Some(mk(4)), None, Some(mk(6)),
        Some(mk(7)), Some(mk(8)), Some(mk(9)),
        Some(mk(10)), Some(mk(11)),
    ];
    let obj: Vec<Vec3> = (0..11).map(|i| mk(i)).collect();
    let recs: Vec<TriangleRecord> = assemble_triangles(&screen, &obj);
    // Triple one assembles, triple two has a dropped corner, triple
    // three assembles, and the trailing two vertices are dropped.
    assert_eq!(recs.len(), 2);
    assert_eq!(recs[0].s1, mk(1));
    assert_eq!(recs[0].o3, mk(2));
    assert_eq!(recs[1].s1, mk(7));
    assert_eq!(recs[1].o1, mk(6));
}

#[test]
fn render_writes_depth_inside_triangle_only() {
    let bg = Rgb { r: 4, g: 12, b: 36 };
    let mut fb = Framebuffer::new(30, 30, bg);
    let id = ident();
    let verts = vec![
        Vec3 { x: fx(10), y: fx(10), z: ONE / 2 },
        Vec3 { x: fx(20), y: fx(10), z: ONE / 2 },
        Vec3 { x: fx(15), y: fx(20), z: ONE / 2 },
    ];
    let zero = Vec3 { x: 0, y: 0, z: 0 };
    render(
        &mut fb, zero, ONE, zero, &verts, &VertexShader::Identity,
        &id, &id, &id, 0, Vec2 { x: fx(30), y: fx(30) }, ONE / 2, ONE,
    );
    // A pixel well inside the triangle got a depth write; one outside
    // did not.
    assert!(fb.get_depth(15, 15) < DEPTH_FAR);
    assert!((fb.get_depth(15, 15) - ONE / 2).abs() <= 4);
    assert_eq!(fb.get_depth(0, 0), DEPTH_FAR);
    assert_eq!(fb.get_color(0, 0), bg);
}

#[test]
fn line_walks_between_endpoints() {
    let a = Vec3 { x: 0, y: 0, z: 0 };
    let b = Vec3 { x: fx(5), y: fx(3), z: ONE };
    let col = Vec3 { x: ONE, y: 0, z: 0 };
    let frags = sunrender::line::line(&a, &b, col);
    assert!(frags.len() >= 2);
    assert_eq!(frags[0].position.x, 0);
    assert_eq!(frags[0].position.y, 0);
    assert_eq!(frags[frags.len() - 1].position.x, 5);
    assert_eq!(frags[frags.len() - 1].position.y, 3);
    for f in frags.iter() {
        assert!(0 <= f.position.x && f.position.x <= 5);
        assert!(0 <= f.position.y && f.position.y <= 3);
        assert!(0 <= f.depth && f.depth <= ONE);
        assert_eq!(f.color, col);
    }
}

#[test]
fn line_single_point() {
    let a = Vec3 { x: fx(2), y: fx(2), z: 17 };
    let col = Vec3 { x: 0, y: ONE, z: 0 };
    let frags = sunrender::line::line(&a, &a, col);
    assert_eq!(frags.len(), 1);
    assert_eq!(frags[0].position.x, 2);
    assert_eq!(frags[0].position.y, 2);
    assert_eq!(frags[0].depth, 17);
}

#[test]
fn fragment_packs_its_fields() {
    let col = Vec3 { x: 1, y: 2, z: 3 };
    let obj = Vec3 { x: 4, y: 5, z: 6 };
    let f = Fragment::new(7, 8, col, 9, obj);
    assert_eq!(f.position, Vec3 { x: 7, y: 8, z: 9 });
    assert_eq!(f.color, col);
    assert_eq!(f.depth, 9);
    assert_eq!(f.obj_position, obj);
}

#[test]
fn entity_holds_scene_snapshot() {
    let e = sunrender::entity::Entity {
        name: "sun",
        translation: Vec3 { x: 0, y: 0, z: 0 },
        rotation: Vec3 { x: 0, y: 0, z: 0 },
        scale: ONE,
        vertices: vec![Vec3 { x: ONE, y: 0, z: 0 }],
        vshader: VertexShader::SolarFlare,
        face_tangent: false,
    };
    assert_eq!(e.name, "sun");
    assert_eq!(e.vertices.len(), 1);
    assert_eq!(e.vshader, VertexShader::SolarFlare);
}
