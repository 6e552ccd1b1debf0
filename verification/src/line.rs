//! A line rasterizer.
//!
//! Classic integer error-accumulation stepping between the rounded
//! endpoints, with depth interpolated linearly along the walk.  The
//! loop is proved never to step past either endpoint, so every emitted
//! fragment lies in the rectangle the endpoints span and the walk
//! terminates exactly on the second endpoint.

use vstd::prelude::*;
use crate::fixed::{fx_clamp, fx_floor_units, tdiv_by, FX_ONE};
use crate::fragment::Fragment;
use crate::procedural::{lemma_lerp_bounds, lerp};
use crate::vec::{vg3, vg3_in, Vec3};

verus! {

/// A fixed-point coordinate rounded to the nearest integer, halves
/// rounding up.
pub open spec fn spec_round_units(v: int) -> int {
    (v + 32768) / (FX_ONE as int)
}

/// The rounding, as executable code.
fn round_units(v: i64) -> (r: i64)
    requires
        -0x1000_0000 <= v <= 0x1000_0000,
    ensures
        r == spec_round_units(v as int),
        -4096 <= r <= 4097,
{
    let f = fx_floor_units(v + 32768);
    proof {
        vstd::arithmetic::div_mod::lemma_div_is_ordered(
            v + 32768, 0x1000_8000, FX_ONE as int);
        vstd::arithmetic::div_mod::lemma_div_is_ordered(
            -0x1000_0000 + 32768, v + 32768, FX_ONE as int);
    }
    f
}

/// Rasterizes a line between two screen-space points with interpolated
/// depth.  Every fragment lies in the pixel rectangle the rounded
/// endpoints span, with the given color and a depth between the two
/// endpoint depths; the first fragment sits on the first rounded
/// endpoint and the last on the second; the placeholder object-space
/// position is zero.
pub fn line(a: &Vec3, b: &Vec3, color: Vec3) -> (r: Vec<Fragment>)
    requires
        vg3_in(vg3(*a), 0x1000_0000),
        vg3_in(vg3(*b), 0x1000_0000),
    ensures
        1 <= r@.len() <= 16387,
        forall|i: int| 0 <= i < r@.len() ==> {
            let f = #[trigger] r@[i];
            &&& f.color == color
            &&& f.obj_position == (Vec3 { x: 0, y: 0, z: 0 })
            &&& f.position.z == f.depth
            &&& (if a.z <= b.z { a.z as int } else { b.z as int }) <= f.depth
            &&& f.depth <= (if a.z >= b.z { a.z as int } else { b.z as int })
            &&& (if a.x <= b.x {
                spec_round_units(a.x as int) <= f.position.x
                    <= spec_round_units(b.x as int)
            } else {
                spec_round_units(b.x as int) <= f.position.x
                    <= spec_round_units(a.x as int)
            })
            &&& (if a.y <= b.y {
                spec_round_units(a.y as int) <= f.position.y
                    <= spec_round_units(b.y as int)
            } else {
                spec_round_units(b.y as int) <= f.position.y
                    <= spec_round_units(a.y as int)
            })
        },
        r@[0].position.x == spec_round_units(a.x as int),
        r@[0].position.y == spec_round_units(a.y as int),
        r@[r@.len() - 1].position.x == spec_round_units(b.x as int),
        r@[r@.len() - 1].position.y == spec_round_units(b.y as int),
{
    let x0r: i64 = round_units(a.x);
    let y0r: i64 = round_units(a.y);
    let x1: i64 = round_units(b.x);
    let y1: i64 = round_units(b.y);
    let z0: i64 = a.z;
    let z1: i64 = b.z;
    proof {
        if a.x <= b.x {
            vstd::arithmetic::div_mod::lemma_div_is_ordered(
                a.x + 32768, b.x + 32768, FX_ONE as int);
        } else {
            vstd::arithmetic::div_mod::lemma_div_is_ordered(
                b.x + 32768, a.x + 32768, FX_ONE as int);
        }
        if a.y <= b.y {
            vstd::arithmetic::div_mod::lemma_div_is_ordered(
                a.y + 32768, b.y + 32768, FX_ONE as int);
        } else {
            vstd::arithmetic::div_mod::lemma_div_is_ordered(
                b.y + 32768, a.y + 32768, FX_ONE as int);
        }
    }

    let dx: i64 = if x1 >= x0r { x1 - x0r } else { x0r - x1 };
    let dy: i64 = if y1 >= y0r { -(y1 - y0r) } else { -(y0r - y1) };
    let sx: i64 = if x0r < x1 { 1 } else { -1 };
    let sy: i64 = if y0r < y1 { 1 } else { -1 };
    let total_steps: i64 = if dx >= -dy { dx } else { -dy };

    let mut cx: i64 = x0r;
    let mut cy: i64 = y0r;
    let mut err: i64 = dx + dy;
    let mut step_idx: i64 = 0;
    let mut out: Vec<Fragment> = Vec::new();
    let zero3 = Vec3 { x: 0, y: 0, z: 0 };
    proof {
        assert(sx * (cx - x0r) == 0 && sy * (cy - y0r) == 0
            && dy * (sx * (cx - x0r)) == 0 && dx * (sy * (cy - y0r)) == 0)
            by (nonlinear_arith)
            requires
                cx == x0r,
                cy == y0r,
        ;
    }

    loop
        invariant_except_break
            0 <= dx <= 8193,
            -8193 <= dy <= 0,
            sx == 1 || sx == -1,
            sy == 1 || sy == -1,
            sx == 1 ==> x1 == x0r + dx,
            sx == -1 ==> x1 == x0r - dx,
            sy == 1 ==> y1 == y0r - dy,
            sy == -1 ==> y1 == y0r + dy,
            total_steps == (if dx >= -dy { dx as int } else { -dy as int }),
            0 <= sx * (cx - x0r) <= dx,
            0 <= sy * (cy - y0r) <= -dy,
            err == dx + dy + dy * (sx * (cx - x0r)) + dx * (sy * (cy - y0r)),
            0 <= step_idx && step_idx <= sx * (cx - x0r) + sy * (cy - y0r),
            sx * (cx - x0r) + sy * (cy - y0r) <= 2 * step_idx,
            -0x1000_0000 <= z0 <= 0x1000_0000,
            -0x1000_0000 <= z1 <= 0x1000_0000,
            out@.len() == step_idx,
            out@.len() > 0 ==> out@[0].position.x == x0r && out@[0].position.y == y0r,
            forall|i: int| 0 <= i < out@.len() ==> {
                let f = #[trigger] out@[i];
                &&& f.color == color
                &&& f.obj_position == zero3
                &&& f.position.z == f.depth
                &&& (if z0 <= z1 { z0 as int } else { z1 as int }) <= f.depth
                &&& f.depth <= (if z0 >= z1 { z0 as int } else { z1 as int })
                &&& (if sx == 1 { x0r <= f.position.x <= x1 } else {
                    x1 <= f.position.x <= x0r })
                &&& (if sy == 1 { y0r <= f.position.y <= y1 } else {
                    y1 <= f.position.y <= y0r })
            },
            zero3 == (Vec3 { x: 0, y: 0, z: 0 }),
        ensures
            cx == x1 && cy == y1,
            1 <= out@.len() <= 16387,
            out@[0].position.x == x0r && out@[0].position.y == y0r,
            out@[out@.len() - 1].position.x == x1
                && out@[out@.len() - 1].position.y == y1,
            forall|i: int| 0 <= i < out@.len() ==> {
                let f = #[trigger] out@[i];
                &&& f.color == color
                &&& f.obj_position == (Vec3 { x: 0, y: 0, z: 0 })
                &&& f.position.z == f.depth
                &&& (if z0 <= z1 { z0 as int } else { z1 as int }) <= f.depth
                &&& f.depth <= (if z0 >= z1 { z0 as int } else { z1 as int })
                &&& (if sx == 1 { x0r <= f.position.x <= x1 } else {
                    x1 <= f.position.x <= x0r })
                &&& (if sy == 1 { y0r <= f.position.y <= y1 } else {
                    y1 <= f.position.y <= y0r })
            },
        decreases (dx - sx * (cx - x0r)) + (-dy - sy * (cy - y0r)),
    {
        let t: i64 = if total_steps > 0 {
            fx_clamp(tdiv_by(step_idx * 65536, total_steps), 0, 65536)
        } else {
            0
        };
        let depth = lerp(z0, z1, t);
        proof {
            if z0 <= z1 {
                lemma_lerp_bounds(z0 as int, z1 as int, t as int, z0 as int, z1 as int);
            } else {
                lemma_lerp_bounds(z0 as int, z1 as int, t as int, z1 as int, z0 as int);
            }
            let ax = sx * (cx - x0r);
            let ay = sy * (cy - y0r);
            assert((sx == 1 ==> cx == x0r + ax) && (sx == -1 ==> cx == x0r - ax))
                by (nonlinear_arith)
                requires
                    ax == sx * (cx - x0r),
                    sx == 1 || sx == -1,
            ;
            assert((sy == 1 ==> cy == y0r + ay) && (sy == -1 ==> cy == y0r - ay))
                by (nonlinear_arith)
                requires
                    ay == sy * (cy - y0r),
                    sy == 1 || sy == -1,
            ;
        }
        out.push(Fragment::new(cx, cy, color, depth, zero3));

        if cx == x1 && cy == y1 {
            break;
        }
        proof {
            let ax = sx * (cx - x0r);
            let ay = sy * (cy - y0r);
            assert((sx == 1 ==> cx == x0r + ax) && (sx == -1 ==> cx == x0r - ax))
                by (nonlinear_arith)
                requires
                    ax == sx * (cx - x0r),
                    sx == 1 || sx == -1,
            ;
            assert((sy == 1 ==> cy == y0r + ay) && (sy == -1 ==> cy == y0r - ay))
                by (nonlinear_arith)
                requires
                    ay == sy * (cy - y0r),
                    sy == 1 || sy == -1,
            ;
            // An axis that reached its endpoint pins that coordinate.
            assert(ax == dx ==> cx == x1);
            assert(ay == -dy ==> cy == y1);
            // Progress: the two error tests cannot both fail.
            assert(!(2 * err < dy && 2 * err > dx));
            // A finished axis never fires again: its error test fails.
            if ax == dx {
                assert(ay < -dy);
                assert(2 * (dx + dy + dy * dx + dx * ay) < dy) by (nonlinear_arith)
                    requires
                        0 <= dx,
                        dy < 0,
                        ay <= -dy - 1,
                ;
            }
            if ay == -dy {
                assert(ax < dx);
                if dy < 0 {
                    assert(2 * (dx + dy + dy * ax + dx * (-dy)) > dx) by (nonlinear_arith)
                        requires
                            0 < dx,
                            dy < 0,
                            0 <= ax <= dx - 1,
                    ;
                } else {
                    assert(dy * ax == 0 && dx * ay == 0) by (nonlinear_arith)
                        requires
                            dy == 0,
                            ay == 0,
                    ;
                }
            }
            assert(dy * ax <= 0 && dy * ax >= dy * dx && dx * ay >= 0
                && dx * ay <= dx * (-dy)) by (nonlinear_arith)
                requires
                    0 <= ax <= dx,
                    0 <= ay <= -dy,
                    dy <= 0 <= dx,
            ;
            assert(sx * sx == 1 && sy * sy == 1) by (nonlinear_arith)
                requires
                    sx == 1 || sx == -1,
                    sy == 1 || sy == -1,
            ;
            assert((dy * dx) >= -8193 * 8193 && dx * (-dy) <= 8193 * 8193)
                by (nonlinear_arith)
                requires
                    0 <= dx <= 8193,
                    -8193 <= dy <= 0,
            ;
        }
        let e2: i64 = 2 * err;
        if e2 >= dy {
            proof {
                assert(dy * (sx * ((cx + sx) - x0r)) == dy * (sx * (cx - x0r)) + dy)
                    by (nonlinear_arith)
                    requires
                        sx * sx == 1,
                ;
            }
            err = err + dy;
            cx = cx + sx;
        }
        if e2 <= dx {
            proof {
                assert(dx * (sy * ((cy + sy) - y0r)) == dx * (sy * (cy - y0r)) + dx)
                    by (nonlinear_arith)
                    requires
                        sy * sy == 1,
                ;
            }
            err = err + dx;
            cy = cy + sy;
        }
        step_idx = step_idx + 1;
    }
    out
}

} // verus!
