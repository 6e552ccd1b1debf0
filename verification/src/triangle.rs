//! The triangle rasterizer.
//!
//! For each pixel center in the triangle's integer bounding box the
//! barycentric weights are computed from exact edge products (the
//! products of two fixed-point coordinates are kept unscaled, so the
//! signed area and the corner identities are exact); a pixel is inside
//! when all three weights are nonnegative, which double-rasterizes
//! pixels on an edge shared by two adjacent triangles; that inclusive
//! edge rule is a documented inexactness, kept rather than silently
//! replaced by a tie-break that would change the output.  Depth and the
//! object-space position are interpolated with weight w on corner 1,
//! v on corner 2 and u on corner 3.

use vstd::prelude::*;
use crate::fixed::{
    fx_ceil_units, fx_div_sat, fx_floor_units, fx_max, fx_min, fx_mul,
    lemma_fx_mul_bound_all, lemma_fx_ok_products, spec_fx_div_sat, spec_fx_mul,
    FX_LIM, FX_ONE,
};
use crate::fragment::Fragment;
use crate::light::Light;
use crate::vec::{dot3, normalize3, spec_dot3, spec_normalize3, vg3, vg3_in, Vec3, VecG3};

verus! {

/// The magnitude raster coordinates are kept under: 2^28, or 4096
/// pixels.  A triangle with a screen corner past this range is not
/// rasterized; the caller drops it as it would a non-finite corner.
pub const RASTER_LIM: i64 = 0x1000_0000;

/// Whether a screen corner's x and y are within the raster range.
pub open spec fn corner_xy_ok(s: VecG3) -> bool {
    &&& -(RASTER_LIM as int) <= s.x <= RASTER_LIM as int
    &&& -(RASTER_LIM as int) <= s.y <= RASTER_LIM as int
}

/// Whether a screen corner is within the rasterizer's working range:
/// x and y within the raster range, depth within the working
/// magnitude.
pub open spec fn corner_ok(s: VecG3) -> bool {
    corner_xy_ok(s) && -(FX_LIM as int) <= s.z <= FX_LIM as int
}

/// Twice the signed area of a screen triangle, at the exact product
/// scale.
pub open spec fn spec_area2(a: VecG3, b: VecG3, c: VecG3) -> int {
    (b.y - c.y) * (a.x - c.x) + (c.x - b.x) * (a.y - c.y)
}

/// The barycentric weights (w, v, u) of a point against a triangle:
/// w belongs to corner `a`, v to corner `b`, u to corner `c`, and they
/// sum to one unit.  A degenerate triangle — its doubled signed area
/// exactly zero at the product grid, which is the fixed-point analog
/// of an epsilon test on the area — yields (-1, -1, -1), which fails
/// every inside test.
pub open spec fn spec_barycentric(px: int, py: int, a: VecG3, b: VecG3, c: VecG3)
    -> (int, int, int) {
    let area2 = spec_area2(a, b, c);
    if area2 == 0 {
        (-(FX_ONE as int), -(FX_ONE as int), -(FX_ONE as int))
    } else {
        let nw = (b.y - c.y) * (px - c.x) + (c.x - b.x) * (py - c.y);
        let nv = (c.y - a.y) * (px - c.x) + (a.x - c.x) * (py - c.y);
        let w = spec_fx_div_sat(nw, area2);
        let v = spec_fx_div_sat(nv, area2);
        (w, v, (FX_ONE as int) - w - v)
    }
}

/// The barycentric weights of a point in screen space.
pub fn barycentric_coordinates(p_x: i64, p_y: i64, a: &Vec3, b: &Vec3, c: &Vec3)
    -> (r: (i64, i64, i64))
    requires
        -(RASTER_LIM as int) <= p_x <= RASTER_LIM as int,
        -(RASTER_LIM as int) <= p_y <= RASTER_LIM as int,
        corner_xy_ok(vg3(*a)),
        corner_xy_ok(vg3(*b)),
        corner_xy_ok(vg3(*c)),
    ensures
        (r.0 as int, r.1 as int, r.2 as int)
            == spec_barycentric(p_x as int, p_y as int, vg3(*a), vg3(*b), vg3(*c)),
{
    proof {
        let lim = RASTER_LIM as int;
        assert forall|p: int, q: int| -2 * lim <= p <= 2 * lim && -2 * lim <= q <= 2 * lim
            implies -0x1000_0000_0000_0000 <= #[trigger] (p * q) <= 0x1000_0000_0000_0000 by {
            vstd::arithmetic::mul::lemma_mul_upper_bound(
                if p >= 0 { p } else { -p }, 2 * lim, if q >= 0 { q } else { -q }, 2 * lim);
            assert(-0x1000_0000_0000_0000 <= p * q <= 0x1000_0000_0000_0000)
                by (nonlinear_arith)
                requires
                    -0x2000_0000 <= p <= 0x2000_0000,
                    -0x2000_0000 <= q <= 0x2000_0000,
            ;
        }
    }
    let area2: i64 = (b.y - c.y) * (a.x - c.x) + (c.x - b.x) * (a.y - c.y);
    if area2 == 0 {
        (-65536, -65536, -65536)
    } else {
        let nw: i64 = (b.y - c.y) * (p_x - c.x) + (c.x - b.x) * (p_y - c.y);
        let nv: i64 = (c.y - a.y) * (p_x - c.x) + (a.x - c.x) * (p_y - c.y);
        let w = fx_div_sat(nw, area2);
        let v = fx_div_sat(nv, area2);
        (w, v, 65536 - w - v)
    }
}

/// At the triangle's own corners the barycentric weights are exactly
/// (1, 0, 0), (0, 1, 0) and (0, 0, 1): each corner numerator either
/// vanishes or reproduces the doubled area, and the saturating division
/// is exact on both.
pub proof fn lemma_barycentric_at_corners(a: VecG3, b: VecG3, c: VecG3)
    requires
        spec_area2(a, b, c) != 0,
    ensures
        spec_barycentric(a.x, a.y, a, b, c) == ((FX_ONE as int, 0int, 0int)),
        spec_barycentric(b.x, b.y, a, b, c) == ((0int, FX_ONE as int, 0int)),
        spec_barycentric(c.x, c.y, a, b, c) == ((0int, 0int, FX_ONE as int)),
{
    let area2 = spec_area2(a, b, c);
    lemma_div_sat_self(area2);
    // At corner a the w numerator is the area and the v numerator is zero.
    assert((c.y - a.y) * (a.x - c.x) + (a.x - c.x) * (a.y - c.y) == 0) by (nonlinear_arith);
    // At corner b the w numerator is zero and the v numerator is the area.
    assert((b.y - c.y) * (b.x - c.x) + (c.x - b.x) * (b.y - c.y) == 0) by (nonlinear_arith);
    assert((c.y - a.y) * (b.x - c.x) + (a.x - c.x) * (b.y - c.y)
        == (b.y - c.y) * (a.x - c.x) + (c.x - b.x) * (a.y - c.y)) by (nonlinear_arith);
    // At corner c both numerators are zero.
    assert((b.y - c.y) * (c.x - c.x) + (c.x - b.x) * (c.y - c.y) == 0) by (nonlinear_arith);
    assert((c.y - a.y) * (c.x - c.x) + (a.x - c.x) * (c.y - c.y) == 0) by (nonlinear_arith);
    assert(spec_fx_div_sat(0, area2) == 0);
}

/// Raster coordinates within `RASTER_LIM` floor to pixel numbers within
/// 4096.
proof fn lemma_units_bounded(a: int)
    requires
        -(RASTER_LIM as int) <= a <= RASTER_LIM as int,
    ensures
        -4096 <= a / (FX_ONE as int) <= 4096,
{
    vstd::arithmetic::div_mod::lemma_div_is_ordered(a, RASTER_LIM as int, FX_ONE as int);
    vstd::arithmetic::div_mod::lemma_div_is_ordered(-(RASTER_LIM as int), a, FX_ONE as int);
    assert((RASTER_LIM as int) / (FX_ONE as int) == 4096);
    assert((-(RASTER_LIM as int)) / (FX_ONE as int) == -4096);
}

/// Dividing the doubled area by itself gives exactly one unit.
proof fn lemma_div_sat_self(x: int)
    requires
        x != 0,
    ensures
        spec_fx_div_sat(x, x) == FX_ONE as int,
{
    if x > 0 {
        vstd::arithmetic::div_mod::lemma_div_multiples_vanish(FX_ONE as int, x);
        assert(x * (FX_ONE as int) == (FX_ONE as int) * x) by (nonlinear_arith);
    } else {
        vstd::arithmetic::div_mod::lemma_div_multiples_vanish(FX_ONE as int, -x);
        assert((x * (FX_ONE as int)) * -1 == (-x) * (FX_ONE as int)
            && (-x) * (FX_ONE as int) == (FX_ONE as int) * (-x)) by (nonlinear_arith);
    }
}

/// The ghost form of a fragment.
pub ghost struct FragG {
    pub x: int,
    pub y: int,
    pub color: VecG3,
    pub depth: int,
    pub obj: VecG3,
}

/// The ghost view of a fragment.
pub open spec fn frag_g(f: Fragment) -> FragG {
    FragG {
        x: f.position.x as int,
        y: f.position.y as int,
        color: vg3(f.color),
        depth: f.depth as int,
        obj: vg3(f.obj_position),
    }
}

/// The fragment a pixel contributes: one fragment when all three
/// barycentric weights are nonnegative, none otherwise.
pub open spec fn spec_pixel_frag(
    v1: VecG3, v2: VecG3, v3: VecG3, o1: VecG3, o2: VecG3, o3: VecG3, col: VecG3,
    x: int, y: int,
) -> Option<FragG> {
    let wvu = spec_barycentric(
        x * (FX_ONE as int), y * (FX_ONE as int), v1, v2, v3);
    let w = wvu.0;
    let v = wvu.1;
    let u = wvu.2;
    if w >= 0 && v >= 0 && u >= 0 {
        Some(FragG {
            x,
            y,
            color: col,
            depth: spec_fx_mul(v1.z, w) + spec_fx_mul(v2.z, v) + spec_fx_mul(v3.z, u),
            obj: VecG3 {
                x: spec_fx_mul(o1.x, w) + spec_fx_mul(o2.x, v) + spec_fx_mul(o3.x, u),
                y: spec_fx_mul(o1.y, w) + spec_fx_mul(o2.y, v) + spec_fx_mul(o3.y, u),
                z: spec_fx_mul(o1.z, w) + spec_fx_mul(o2.z, v) + spec_fx_mul(o3.z, u),
            },
        })
    } else {
        None
    }
}

/// A pixel's contribution as a sequence: empty or one fragment.
pub open spec fn spec_pixel_seq(
    v1: VecG3, v2: VecG3, v3: VecG3, o1: VecG3, o2: VecG3, o3: VecG3, col: VecG3,
    x: int, y: int,
) -> Seq<FragG> {
    match spec_pixel_frag(v1, v2, v3, o1, o2, o3, col, x, y) {
        Some(f) => seq![f],
        None => Seq::empty(),
    }
}

/// The fragments of one raster row, pixels `x0` up to but not
/// including `x1`, in order.
pub open spec fn spec_tri_row(
    v1: VecG3, v2: VecG3, v3: VecG3, o1: VecG3, o2: VecG3, o3: VecG3, col: VecG3,
    y: int, x0: int, x1: int,
) -> Seq<FragG>
    decreases x1 - x0,
{
    if x1 <= x0 {
        Seq::empty()
    } else {
        spec_tri_row(v1, v2, v3, o1, o2, o3, col, y, x0, x1 - 1)
            + spec_pixel_seq(v1, v2, v3, o1, o2, o3, col, x1 - 1, y)
    }
}

/// The fragments of the raster rows `y0` up to but not including `y1`,
/// each row covering pixels `x0` up to `x1`, in order.
pub open spec fn spec_tri_rows(
    v1: VecG3, v2: VecG3, v3: VecG3, o1: VecG3, o2: VecG3, o3: VecG3, col: VecG3,
    y0: int, y1: int, x0: int, x1: int,
) -> Seq<FragG>
    decreases y1 - y0,
{
    if y1 <= y0 {
        Seq::empty()
    } else {
        spec_tri_rows(v1, v2, v3, o1, o2, o3, col, y0, y1 - 1, x0, x1)
            + spec_tri_row(v1, v2, v3, o1, o2, o3, col, y1 - 1, x0, x1)
    }
}

/// The floor of the least x coordinate of the three screen corners.
pub open spec fn spec_bbox_min_x(v1: VecG3, v2: VecG3, v3: VecG3) -> int {
    spec_min3(v1.x, v2.x, v3.x) / (FX_ONE as int)
}

/// The floor of the least y coordinate.
pub open spec fn spec_bbox_min_y(v1: VecG3, v2: VecG3, v3: VecG3) -> int {
    spec_min3(v1.y, v2.y, v3.y) / (FX_ONE as int)
}

/// The ceiling of the greatest x coordinate.
pub open spec fn spec_bbox_max_x(v1: VecG3, v2: VecG3, v3: VecG3) -> int {
    -((-spec_max3(v1.x, v2.x, v3.x)) / (FX_ONE as int))
}

/// The ceiling of the greatest y coordinate.
pub open spec fn spec_bbox_max_y(v1: VecG3, v2: VecG3, v3: VecG3) -> int {
    -((-spec_max3(v1.y, v2.y, v3.y)) / (FX_ONE as int))
}

/// The least of three values.
pub open spec fn spec_min3(a: int, b: int, c: int) -> int {
    let ab = if a <= b { a } else { b };
    if ab <= c { ab } else { c }
}

/// The greatest of three values.
pub open spec fn spec_max3(a: int, b: int, c: int) -> int {
    let ab = if a >= b { a } else { b };
    if ab >= c { ab } else { c }
}

/// The lighting interpolant carried on every fragment of a triangle:
/// white scaled by the clamped dot product of corner 1 with the
/// normalized light direction.
pub open spec fn spec_tri_color(v1: VecG3, light: VecG3) -> VecG3 {
    let ldir = spec_normalize3(light);
    let d = spec_dot3(v1, ldir);
    let inten = if d >= 0 { d } else { 0 };
    VecG3 { x: inten, y: inten, z: inten }
}

/// All fragments the triangle covers, row by row over its bounding
/// box.
pub open spec fn spec_triangle(
    v1: VecG3, v2: VecG3, v3: VecG3, o1: VecG3, o2: VecG3, o3: VecG3, light: VecG3,
) -> Seq<FragG> {
    spec_tri_rows(
        v1, v2, v3, o1, o2, o3, spec_tri_color(v1, light),
        spec_bbox_min_y(v1, v2, v3), spec_bbox_max_y(v1, v2, v3) + 1,
        spec_bbox_min_x(v1, v2, v3), spec_bbox_max_x(v1, v2, v3) + 1,
    )
}

/// Rasterizes one triangle: emits one fragment for every pixel center
/// in the bounding box whose barycentric weights are all nonnegative,
/// with depth and object-space position interpolated under the same
/// weight-to-corner pairing, and the lighting interpolant as color.
pub fn triangle(
    v1: &Vec3, v2: &Vec3, v3: &Vec3, o1: &Vec3, o2: &Vec3, o3: &Vec3, light: &Light,
) -> (r: Vec<Fragment>)
    requires
        corner_ok(vg3(*v1)),
        corner_ok(vg3(*v2)),
        corner_ok(vg3(*v3)),
        vg3_in(vg3(*o1), 0x1000_0000),
        vg3_in(vg3(*o2), 0x1000_0000),
        vg3_in(vg3(*o3), 0x1000_0000),
        vg3_in(vg3(light.position), 0x4000_0000),
    ensures
        r@.map_values(|f: Fragment| frag_g(f)) == spec_triangle(
            vg3(*v1), vg3(*v2), vg3(*v3), vg3(*o1), vg3(*o2), vg3(*o3),
            vg3(light.position)),
        forall|i: int| 0 <= i < r@.len()
            ==> (#[trigger] r@[i]).position.z == r@[i].depth,
        forall|i: int| 0 <= i < r@.len()
            ==> vg3_in(vg3((#[trigger] r@[i]).obj_position), 0x3000_0000),
        forall|i: int| 0 <= i < r@.len()
            ==> -4096 <= (#[trigger] r@[i]).position.x <= 4096
                && -4096 <= r@[i].position.y <= 4096,
{
    let ghost gv1 = vg3(*v1);
    let ghost gv2 = vg3(*v2);
    let ghost gv3 = vg3(*v3);
    let ghost go1 = vg3(*o1);
    let ghost go2 = vg3(*o2);
    let ghost go3 = vg3(*o3);
    proof {
        lemma_fx_ok_products();
        lemma_fx_mul_bound_all(RASTER_LIM as int, 2 * (FX_ONE as int));
    }
    let ldir = normalize3(light.position);
    let d = dot3(*v1, ldir);
    let inten = fx_max(d, 0);
    let final_color = Vec3 { x: inten, y: inten, z: inten };
    let ghost col = spec_tri_color(gv1, vg3(light.position));
    proof {
        assert(vg3(final_color) == col);
    }

    let min_x = fx_floor_units(fx_min(fx_min(v1.x, v2.x), v3.x));
    let min_y = fx_floor_units(fx_min(fx_min(v1.y, v2.y), v3.y));
    let max_x = fx_ceil_units(fx_max(fx_max(v1.x, v2.x), v3.x));
    let max_y = fx_ceil_units(fx_max(fx_max(v1.y, v2.y), v3.y));
    proof {
        assert(min_x == spec_bbox_min_x(gv1, gv2, gv3));
        assert(min_y == spec_bbox_min_y(gv1, gv2, gv3));
        assert(max_x == spec_bbox_max_x(gv1, gv2, gv3));
        assert(max_y == spec_bbox_max_y(gv1, gv2, gv3));
        lemma_units_bounded(spec_min3(gv1.x, gv2.x, gv3.x));
        lemma_units_bounded(spec_min3(gv1.y, gv2.y, gv3.y));
        lemma_units_bounded(-spec_max3(gv1.x, gv2.x, gv3.x));
        lemma_units_bounded(-spec_max3(gv1.y, gv2.y, gv3.y));
    }

    let mut fragments: Vec<Fragment> = Vec::new();
    let mut y: i64 = min_y;
    while y <= max_y
        invariant
            min_y <= y,
            y == min_y || y <= max_y + 1,
            -4096 <= min_y && max_y <= 4096,
            -4096 <= min_x && max_x <= 4096,
            min_x == spec_bbox_min_x(gv1, gv2, gv3),
            max_x == spec_bbox_max_x(gv1, gv2, gv3),
            gv1 == vg3(*v1) && gv2 == vg3(*v2) && gv3 == vg3(*v3),
            go1 == vg3(*o1) && go2 == vg3(*o2) && go3 == vg3(*o3),
            vg3(final_color) == col,
            corner_ok(gv1),
            corner_ok(gv2),
            corner_ok(gv3),
            vg3_in(go1, 0x1000_0000),
            vg3_in(go2, 0x1000_0000),
            vg3_in(go3, 0x1000_0000),
            fragments@.map_values(|f: Fragment| frag_g(f)) == spec_tri_rows(
                gv1, gv2, gv3, go1, go2, go3, col,
                min_y as int, y as int, min_x as int, max_x + 1),
            forall|i: int| 0 <= i < fragments@.len()
                ==> (#[trigger] fragments@[i]).position.z == fragments@[i].depth,
            forall|i: int| 0 <= i < fragments@.len()
                ==> vg3_in(vg3((#[trigger] fragments@[i]).obj_position), 0x3000_0000),
            forall|i: int| 0 <= i < fragments@.len()
                ==> -4096 <= (#[trigger] fragments@[i]).position.x <= 4096
                    && -4096 <= fragments@[i].position.y <= 4096,
        decreases max_y + 1 - y,
    {
        let mut x: i64 = min_x;
        while x <= max_x
            invariant
                min_x <= x,
                x == min_x || x <= max_x + 1,
                min_y <= y <= max_y,
                -4096 <= min_y && max_y <= 4096,
                -4096 <= min_x && max_x <= 4096,
                min_x == spec_bbox_min_x(gv1, gv2, gv3),
                max_x == spec_bbox_max_x(gv1, gv2, gv3),
                gv1 == vg3(*v1) && gv2 == vg3(*v2) && gv3 == vg3(*v3),
                go1 == vg3(*o1) && go2 == vg3(*o2) && go3 == vg3(*o3),
                vg3(final_color) == col,
                corner_ok(gv1),
                corner_ok(gv2),
                corner_ok(gv3),
                vg3_in(go1, 0x1000_0000),
                vg3_in(go2, 0x1000_0000),
                vg3_in(go3, 0x1000_0000),
                fragments@.map_values(|f: Fragment| frag_g(f)) == spec_tri_rows(
                    gv1, gv2, gv3, go1, go2, go3, col,
                    min_y as int, y as int, min_x as int, max_x + 1)
                    + spec_tri_row(
                        gv1, gv2, gv3, go1, go2, go3, col,
                        y as int, min_x as int, x as int),
                forall|i: int| 0 <= i < fragments@.len()
                    ==> (#[trigger] fragments@[i]).position.z == fragments@[i].depth,
                forall|i: int| 0 <= i < fragments@.len()
                    ==> vg3_in(vg3((#[trigger] fragments@[i]).obj_position), 0x3000_0000),
                forall|i: int| 0 <= i < fragments@.len()
                    ==> -4096 <= (#[trigger] fragments@[i]).position.x <= 4096
                        && -4096 <= fragments@[i].position.y <= 4096,
            decreases max_x + 1 - x,
        {
            let px: i64 = x * 65536;
            let py: i64 = y * 65536;
            let (w, v, u) = barycentric_coordinates(px, py, v1, v2, v3);
            let ghost pre = fragments@;
            if w >= 0 && v >= 0 && u >= 0 {
                proof {
                    lemma_fx_ok_products();
                    lemma_fx_mul_bound_all(0x1000_0000, FX_ONE as int);
                }
                let depth = fx_mul(v1.z, w) + fx_mul(v2.z, v) + fx_mul(v3.z, u);
                let obj = Vec3 {
                    x: fx_mul(o1.x, w) + fx_mul(o2.x, v) + fx_mul(o3.x, u),
                    y: fx_mul(o1.y, w) + fx_mul(o2.y, v) + fx_mul(o3.y, u),
                    z: fx_mul(o1.z, w) + fx_mul(o2.z, v) + fx_mul(o3.z, u),
                };
                let frag = Fragment::new(x, y, final_color, depth, obj);
                fragments.push(frag);
            }
            proof {
                assert(fragments@.map_values(|f: Fragment| frag_g(f))
                    =~= pre.map_values(|f: Fragment| frag_g(f))
                        + spec_pixel_seq(gv1, gv2, gv3, go1, go2, go3, col,
                            x as int, y as int));
                assert(spec_tri_row(gv1, gv2, gv3, go1, go2, go3, col,
                        y as int, min_x as int, x + 1)
                    == spec_tri_row(gv1, gv2, gv3, go1, go2, go3, col,
                        y as int, min_x as int, x as int)
                        + spec_pixel_seq(gv1, gv2, gv3, go1, go2, go3, col,
                            x as int, y as int));
                assert(fragments@.map_values(|f: Fragment| frag_g(f))
                    =~= spec_tri_rows(gv1, gv2, gv3, go1, go2, go3, col,
                        min_y as int, y as int, min_x as int, max_x + 1)
                        + spec_tri_row(gv1, gv2, gv3, go1, go2, go3, col,
                            y as int, min_x as int, x + 1));
            }
            x = x + 1;
        }
        proof {
            assert(spec_tri_rows(gv1, gv2, gv3, go1, go2, go3, col,
                    min_y as int, y + 1, min_x as int, max_x + 1)
                == spec_tri_rows(gv1, gv2, gv3, go1, go2, go3, col,
                    min_y as int, y as int, min_x as int, max_x + 1)
                    + spec_tri_row(gv1, gv2, gv3, go1, go2, go3, col,
                        y as int, min_x as int, max_x + 1));
        }
        y = y + 1;
    }
    fragments
}

/// Every fragment of one raster row carries that row's y and an x
/// within the row's pixel range.
proof fn lemma_row_fragments_in_range(
    v1: VecG3, v2: VecG3, v3: VecG3, o1: VecG3, o2: VecG3, o3: VecG3, col: VecG3,
    y: int, x0: int, x1: int,
)
    ensures
        forall|i: int|
            0 <= i < spec_tri_row(v1, v2, v3, o1, o2, o3, col, y, x0, x1).len()
            ==> (#[trigger] spec_tri_row(v1, v2, v3, o1, o2, o3, col, y, x0, x1)[i]).y == y
                && x0 <= spec_tri_row(v1, v2, v3, o1, o2, o3, col, y, x0, x1)[i].x < x1,
    decreases x1 - x0,
{
    if x1 > x0 {
        lemma_row_fragments_in_range(v1, v2, v3, o1, o2, o3, col, y, x0, x1 - 1);
        let whole = spec_tri_row(v1, v2, v3, o1, o2, o3, col, y, x0, x1);
        let prefix = spec_tri_row(v1, v2, v3, o1, o2, o3, col, y, x0, x1 - 1);
        let pix = spec_pixel_seq(v1, v2, v3, o1, o2, o3, col, x1 - 1, y);
        assert forall|i: int| 0 <= i < whole.len()
            implies (#[trigger] whole[i]).y == y && x0 <= whole[i].x < x1 by {
            if i < prefix.len() {
                assert(whole[i] == prefix[i]);
            } else {
                assert(whole[i] == pix[i - prefix.len()]);
            }
        }
    }
}

/// Every fragment of a block of raster rows lies within the block's
/// pixel rectangle.
proof fn lemma_rows_fragments_in_range(
    v1: VecG3, v2: VecG3, v3: VecG3, o1: VecG3, o2: VecG3, o3: VecG3, col: VecG3,
    y0: int, y1: int, x0: int, x1: int,
)
    ensures
        forall|i: int|
            0 <= i < spec_tri_rows(v1, v2, v3, o1, o2, o3, col, y0, y1, x0, x1).len()
            ==> y0 <= (#[trigger] spec_tri_rows(
                    v1, v2, v3, o1, o2, o3, col, y0, y1, x0, x1)[i]).y < y1
                && x0 <= spec_tri_rows(v1, v2, v3, o1, o2, o3, col, y0, y1, x0, x1)[i].x < x1,
    decreases y1 - y0,
{
    if y1 > y0 {
        lemma_rows_fragments_in_range(v1, v2, v3, o1, o2, o3, col, y0, y1 - 1, x0, x1);
        lemma_row_fragments_in_range(v1, v2, v3, o1, o2, o3, col, y1 - 1, x0, x1);
        let whole = spec_tri_rows(v1, v2, v3, o1, o2, o3, col, y0, y1, x0, x1);
        let prefix = spec_tri_rows(v1, v2, v3, o1, o2, o3, col, y0, y1 - 1, x0, x1);
        let row = spec_tri_row(v1, v2, v3, o1, o2, o3, col, y1 - 1, x0, x1);
        assert forall|i: int| 0 <= i < whole.len()
            implies y0 <= (#[trigger] whole[i]).y < y1 && x0 <= whole[i].x < x1 by {
            if i < prefix.len() {
                assert(whole[i] == prefix[i]);
            } else {
                assert(whole[i] == row[i - prefix.len()]);
            }
        }
    }
}

/// Every fragment a triangle emits lies within the triangle's integer
/// bounding box.
pub proof fn lemma_triangle_fragments_in_bbox(
    v1: VecG3, v2: VecG3, v3: VecG3, o1: VecG3, o2: VecG3, o3: VecG3, light: VecG3,
)
    ensures
        forall|i: int|
            0 <= i < spec_triangle(v1, v2, v3, o1, o2, o3, light).len()
            ==> spec_bbox_min_x(v1, v2, v3)
                    <= (#[trigger] spec_triangle(v1, v2, v3, o1, o2, o3, light)[i]).x
                    <= spec_bbox_max_x(v1, v2, v3)
                && spec_bbox_min_y(v1, v2, v3)
                    <= spec_triangle(v1, v2, v3, o1, o2, o3, light)[i].y
                    <= spec_bbox_max_y(v1, v2, v3),
{
    lemma_rows_fragments_in_range(
        v1, v2, v3, o1, o2, o3, spec_tri_color(v1, light),
        spec_bbox_min_y(v1, v2, v3), spec_bbox_max_y(v1, v2, v3) + 1,
        spec_bbox_min_x(v1, v2, v3), spec_bbox_max_x(v1, v2, v3) + 1);
}

} // verus!
