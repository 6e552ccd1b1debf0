//! The per-frame rendering pipeline.
//!
//! One call shades every vertex, projects it to screen space, groups
//! consecutive triples into triangle records carrying both corner sets,
//! rasterizes each record, shades each fragment, and writes it to the
//! framebuffer under the depth test.  The specification composes the
//! stage specifications, so the final framebuffer is pinned exactly:
//! it equals the fold of depth-tested writes of the shaded fragments
//! of the assembled triangles of the transformed, shaded vertices.

use vstd::prelude::*;
use crate::fixed::{FX_LIM, FX_ONE};
use crate::fragment::Fragment;
use crate::framebuffer::{spec_set_pixel, FbView, Framebuffer};
use crate::light::Light;
use crate::matrix::{gmat_in, mat_g, spec_transform, transform, Mat4};
use crate::shader::{
    apply_vertex_shader, fragment_shader, spec_apply_vertex_shader,
    spec_fragment_shader, VertexShader,
};
use crate::triangle::{
    corner_ok, frag_g, spec_triangle, triangle, FragG, RASTER_LIM,
};
use crate::uniforms::{spec_vec3_to_color, vec3_to_color, Rgb, Uniforms};
use crate::vec::{vg3, vg3_in, Vec2, Vec3, VecG3};

verus! {

/// The fixed light the rasterizer's base lighting interpolant samples.
pub const LIGHT_Y: i64 = 655360;

/// A triangle record: the three screen-space corners and the three
/// object-space corners of one assembled triangle, index-aligned.
#[derive(Clone, Copy, PartialEq, Eq, Structural, Debug)]
pub struct TriangleRecord {
    pub s1: Vec3,
    pub s2: Vec3,
    pub s3: Vec3,
    pub o1: Vec3,
    pub o2: Vec3,
    pub o3: Vec3,
}

/// The ghost form of a triangle record.
pub ghost struct PrimG {
    pub s1: VecG3,
    pub s2: VecG3,
    pub s3: VecG3,
    pub o1: VecG3,
    pub o2: VecG3,
    pub o3: VecG3,
}

/// The ghost view of a triangle record.
pub open spec fn prim_g(t: TriangleRecord) -> PrimG {
    PrimG {
        s1: vg3(t.s1), s2: vg3(t.s2), s3: vg3(t.s3),
        o1: vg3(t.o1), o2: vg3(t.o2), o3: vg3(t.o3),
    }
}

/// The ghost view of an optional projected vertex.
pub open spec fn opt_vg3(o: Option<Vec3>) -> Option<VecG3> {
    match o {
        Some(v) => Some(vg3(v)),
        None => None,
    }
}

/// The record triple `t` contributes: one record when all three of its
/// screen corners projected and are within the raster range, none
/// otherwise (a dropped corner stands for the non-finite projections a
/// floating-point pipeline would produce).
pub open spec fn spec_prim_seq(screen: Seq<Option<VecG3>>, obj: Seq<VecG3>, t: int)
    -> Seq<PrimG> {
    let a = screen[3 * t];
    let b = screen[3 * t + 1];
    let c = screen[3 * t + 2];
    if a is Some && b is Some && c is Some
        && corner_ok(a->0) && corner_ok(b->0) && corner_ok(c->0) {
        seq![PrimG {
            s1: a->0, s2: b->0, s3: c->0,
            o1: obj[3 * t], o2: obj[3 * t + 1], o3: obj[3 * t + 2],
        }]
    } else {
        Seq::empty()
    }
}

/// The records of the first `t` consecutive, non-overlapping vertex
/// triples, in order; trailing vertices that do not complete a triple
/// contribute nothing.
pub open spec fn spec_assemble(screen: Seq<Option<VecG3>>, obj: Seq<VecG3>, t: int)
    -> Seq<PrimG>
    decreases t,
{
    if t <= 0 {
        Seq::empty()
    } else {
        spec_assemble(screen, obj, t - 1) + spec_prim_seq(screen, obj, t - 1)
    }
}

/// Groups index-aligned projected and object-space vertices into
/// triangle records, three consecutive vertices each; a triple with a
/// dropped or out-of-range screen corner is skipped, and trailing
/// vertices are dropped silently.
pub fn assemble_triangles(screen: &Vec<Option<Vec3>>, obj: &Vec<Vec3>)
    -> (r: Vec<TriangleRecord>)
    requires
        screen@.len() == obj@.len(),
    ensures
        r@.map_values(|p: TriangleRecord| prim_g(p)) == spec_assemble(
            screen@.map_values(|o: Option<Vec3>| opt_vg3(o)),
            obj@.map_values(|v: Vec3| vg3(v)),
            screen@.len() as int / 3),
        forall|i: int| 0 <= i < r@.len() ==> {
            let p = prim_g(#[trigger] r@[i]);
            corner_ok(p.s1) && corner_ok(p.s2) && corner_ok(p.s3)
        },
{
    let ghost gscreen = screen@.map_values(|o: Option<Vec3>| opt_vg3(o));
    let ghost gobj = obj@.map_values(|v: Vec3| vg3(v));
    let n: usize = screen.len() / 3;
    proof {
        vstd::arithmetic::div_mod::lemma_fundamental_div_mod(screen@.len() as int, 3);
    }
    let m: usize = screen.len();
    let mut r: Vec<TriangleRecord> = Vec::new();
    let mut idx: usize = 0;
    let mut t: usize = 0;
    while t < n
        invariant
            t <= n,
            n == screen@.len() / 3,
            3 * n <= screen@.len(),
            m == screen@.len(),
            idx == 3 * t,
            screen@.len() == obj@.len(),
            gscreen == screen@.map_values(|o: Option<Vec3>| opt_vg3(o)),
            gobj == obj@.map_values(|v: Vec3| vg3(v)),
            r@.map_values(|p: TriangleRecord| prim_g(p))
                == spec_assemble(gscreen, gobj, t as int),
            forall|i: int| 0 <= i < r@.len() ==> {
                let p = prim_g(#[trigger] r@[i]);
                corner_ok(p.s1) && corner_ok(p.s2) && corner_ok(p.s3)
            },
        decreases n - t,
    {
        let a = screen[idx];
        let b = screen[idx + 1];
        let c = screen[idx + 2];
        let ghost pre = r@;
        if let (Some(sa), Some(sb), Some(sc)) = (a, b, c) {
            let ok = sa.x >= -RASTER_LIM && sa.x <= RASTER_LIM
                && sa.y >= -RASTER_LIM && sa.y <= RASTER_LIM
                && sa.z >= -FX_LIM && sa.z <= FX_LIM
                && sb.x >= -RASTER_LIM && sb.x <= RASTER_LIM
                && sb.y >= -RASTER_LIM && sb.y <= RASTER_LIM
                && sb.z >= -FX_LIM && sb.z <= FX_LIM
                && sc.x >= -RASTER_LIM && sc.x <= RASTER_LIM
                && sc.y >= -RASTER_LIM && sc.y <= RASTER_LIM
                && sc.z >= -FX_LIM && sc.z <= FX_LIM;
            if ok {
                r.push(TriangleRecord {
                    s1: sa, s2: sb, s3: sc,
                    o1: obj[idx], o2: obj[idx + 1], o3: obj[idx + 2],
                });
            }
        }
        proof {
            assert(gscreen[3 * t as int] == opt_vg3(screen@[3 * t as int]));
            assert(gscreen[3 * t as int + 1] == opt_vg3(screen@[3 * t as int + 1]));
            assert(gscreen[3 * t as int + 2] == opt_vg3(screen@[3 * t as int + 2]));
            assert(gobj[3 * t as int] == vg3(obj@[3 * t as int]));
            assert(gobj[3 * t as int + 1] == vg3(obj@[3 * t as int + 1]));
            assert(gobj[3 * t as int + 2] == vg3(obj@[3 * t as int + 2]));
            assert(r@.map_values(|p: TriangleRecord| prim_g(p))
                =~= pre.map_values(|p: TriangleRecord| prim_g(p))
                    + spec_prim_seq(gscreen, gobj, t as int));
        }
        idx = idx + 3;
        t = t + 1;
    }
    r
}

/// All fragments of the first `t` records, rasterized in order.
pub open spec fn spec_frags_upto(prims: Seq<PrimG>, light: VecG3, t: int) -> Seq<FragG>
    decreases t,
{
    if t <= 0 {
        Seq::empty()
    } else {
        let p = prims[t - 1];
        spec_frags_upto(prims, light, t - 1)
            + spec_triangle(p.s1, p.s2, p.s3, p.o1, p.o2, p.o3, light)
    }
}

/// The shaded color a fragment writes with.
pub open spec fn spec_shade_color(f: FragG, time: int, temp: int, intensity: int) -> Rgb {
    spec_vec3_to_color(spec_fragment_shader(f.obj, time, temp, intensity))
}

/// The fold of depth-tested writes of a fragment sequence: each
/// fragment's shaded color becomes the current color, then the write
/// is applied (and discarded by `spec_set_pixel` when out of bounds or
/// depth-failed).
pub open spec fn spec_draw(
    v: FbView, frags: Seq<FragG>, time: int, temp: int, intensity: int,
) -> FbView
    decreases frags.len(),
{
    if frags.len() == 0 {
        v
    } else {
        let prev = spec_draw(v, frags.drop_last(), time, temp, intensity);
        let f = frags.last();
        let col = spec_shade_color(f, time, temp, intensity);
        spec_set_pixel(
            FbView { current: col, ..prev }, f.x, f.y, f.depth, col)
    }
}

/// The vertex shading and projection of every input vertex, in order.
pub open spec fn spec_screen_seq(
    va: Seq<Vec3>, shader: VertexShader, time: int,
    translation: VecG3, scale: int, rotation: VecG3,
    view: crate::matrix::MatG, projection: crate::matrix::MatG,
    viewport: crate::matrix::MatG,
) -> Seq<Option<VecG3>> {
    Seq::new(va.len(), |j: int| spec_transform(
        spec_apply_vertex_shader(vg3(va[j]), shader, time),
        translation, scale, rotation, view, projection, viewport))
}

/// The vertex shading of every input vertex, in order.
pub open spec fn spec_obj_seq(va: Seq<Vec3>, shader: VertexShader, time: int)
    -> Seq<VecG3> {
    Seq::new(va.len(), |j: int| spec_apply_vertex_shader(vg3(va[j]), shader, time))
}

/// The framebuffer after rendering one object: the fold of writes of
/// the fragments of the assembled triangles of the shaded, projected
/// vertices.
pub open spec fn spec_render(
    v0: FbView, translation: VecG3, scale: int, rotation: VecG3,
    va: Seq<Vec3>, shader: VertexShader,
    view: crate::matrix::MatG, projection: crate::matrix::MatG,
    viewport: crate::matrix::MatG,
    time: int, temp: int, intensity: int,
) -> FbView {
    let screen = spec_screen_seq(
        va, shader, time, translation, scale, rotation, view, projection, viewport);
    let obj = spec_obj_seq(va, shader, time);
    let prims = spec_assemble(screen, obj, va.len() as int / 3);
    let light = VecG3 { x: 0, y: LIGHT_Y as int, z: 0 };
    spec_draw(
        v0, spec_frags_upto(prims, light, prims.len() as int), time, temp, intensity)
}

/// Renders one object into the framebuffer; see `spec_render`.
pub fn render(
    framebuffer: &mut Framebuffer,
    translation: Vec3, scale: i64, rotation: Vec3,
    vertex_array: &Vec<Vec3>, vshader: &VertexShader,
    view: &Mat4, projection: &Mat4, viewport: &Mat4,
    time: i64, resolution: Vec2, temp: i64, intensity: i64,
)
    requires
        old(framebuffer)@.wf(),
        forall|i: int| 0 <= i < vertex_array@.len()
            ==> vg3_in(vg3(#[trigger] vertex_array@[i]), 0x100_0000),
        vg3_in(vg3(translation), 0x100_0000),
        0 <= scale <= 0x100_0000,
        vg3_in(vg3(rotation), 0x4000_0000_0000_0000),
        gmat_in(mat_g(*view), FX_LIM as int),
        gmat_in(mat_g(*projection), FX_LIM as int),
        gmat_in(mat_g(*viewport), 0x2000_0000),
        0 <= time <= FX_LIM,
        0 <= temp <= FX_ONE,
        0 <= intensity <= 2 * FX_ONE,
    ensures
        final(framebuffer)@ == spec_render(
            old(framebuffer)@, vg3(translation), scale as int, vg3(rotation),
            vertex_array@, *vshader, mat_g(*view), mat_g(*projection),
            mat_g(*viewport), time as int, temp as int, intensity as int),
        final(framebuffer)@.wf(),
        final(framebuffer)@.width == old(framebuffer)@.width,
        final(framebuffer)@.height == old(framebuffer)@.height,
{
    let ghost gscreen = spec_screen_seq(
        vertex_array@, *vshader, time as int, vg3(translation), scale as int,
        vg3(rotation), mat_g(*view), mat_g(*projection), mat_g(*viewport));
    let ghost gobj = spec_obj_seq(vertex_array@, *vshader, time as int);

    // Vertex shading and transform stages, per vertex.
    let mut obj_vertices: Vec<Vec3> = Vec::new();
    let mut transformed: Vec<Option<Vec3>> = Vec::new();
    let vcount: usize = vertex_array.len();
    let mut i: usize = 0;
    while i < vcount
        invariant
            i <= vcount,
            vcount == vertex_array@.len(),
            forall|j: int| 0 <= j < vertex_array@.len()
                ==> vg3_in(vg3(#[trigger] vertex_array@[j]), 0x100_0000),
            vg3_in(vg3(translation), 0x100_0000),
            0 <= scale <= 0x100_0000,
            vg3_in(vg3(rotation), 0x4000_0000_0000_0000),
            gmat_in(mat_g(*view), FX_LIM as int),
            gmat_in(mat_g(*projection), FX_LIM as int),
            gmat_in(mat_g(*viewport), 0x2000_0000),
            0 <= time <= FX_LIM,
            gscreen == spec_screen_seq(
                vertex_array@, *vshader, time as int, vg3(translation), scale as int,
                vg3(rotation), mat_g(*view), mat_g(*projection), mat_g(*viewport)),
            gobj == spec_obj_seq(vertex_array@, *vshader, time as int),
            obj_vertices@.len() == i,
            transformed@.len() == i,
            forall|j: int| 0 <= j < i as int
                ==> vg3(#[trigger] obj_vertices@[j]) == gobj[j],
            forall|j: int| 0 <= j < i as int
                ==> vg3_in(vg3(#[trigger] obj_vertices@[j]), 0x200_0000),
            forall|j: int| 0 <= j < i as int
                ==> opt_vg3(#[trigger] transformed@[j]) == gscreen[j],
        decreases vcount - i,
    {
        let sv = apply_vertex_shader(vertex_array[i], vshader, time);
        let tv = transform(sv, translation, scale, rotation, view, projection, viewport);
        obj_vertices.push(sv);
        transformed.push(tv);
        i = i + 1;
    }

    proof {
        assert forall|j: int| 0 <= j < gobj.len()
            implies vg3_in(#[trigger] gobj[j], 0x200_0000) by {
            assert(vg3(obj_vertices@[j]) == gobj[j]);
        }
    }

    // Primitive assembly stage.
    let records = assemble_triangles(&transformed, &obj_vertices);
    let ghost gprims = spec_assemble(gscreen, gobj, vertex_array@.len() as int / 3);
    proof {
        assert(transformed@.map_values(|o: Option<Vec3>| opt_vg3(o)) =~= gscreen);
        assert(obj_vertices@.map_values(|v: Vec3| vg3(v)) =~= gobj);
        assert(records@.map_values(|p: TriangleRecord| prim_g(p)) == gprims);
    }

    // Rasterization stage.
    let light = Light::new(Vec3 { x: 0, y: LIGHT_Y, z: 0 });
    let ghost glight = vg3(light.position);
    let mut fragments: Vec<Fragment> = Vec::new();
    let rcount: usize = records.len();
    let mut t: usize = 0;
    while t < rcount
        invariant
            t <= rcount,
            rcount == records@.len(),
            records@.map_values(|p: TriangleRecord| prim_g(p)) == gprims,
            forall|k: int| 0 <= k < records@.len() ==> {
                let p = prim_g(#[trigger] records@[k]);
                corner_ok(p.s1) && corner_ok(p.s2) && corner_ok(p.s3)
            },
            forall|j: int| 0 <= j < vertex_array@.len()
                ==> vg3_in(vg3(#[trigger] vertex_array@[j]), 0x100_0000),
            gobj == spec_obj_seq(vertex_array@, *vshader, time as int),
            gscreen == spec_screen_seq(
                vertex_array@, *vshader, time as int, vg3(translation), scale as int,
                vg3(rotation), mat_g(*view), mat_g(*projection), mat_g(*viewport)),
            gprims == spec_assemble(gscreen, gobj, vertex_array@.len() as int / 3),
            forall|j: int| 0 <= j < gobj.len()
                ==> vg3_in(#[trigger] gobj[j], 0x200_0000),
            0 <= time <= FX_LIM,
            glight == vg3(light.position),
            glight == (VecG3 { x: 0, y: LIGHT_Y as int, z: 0 }),
            fragments@.map_values(|f: Fragment| frag_g(f))
                == spec_frags_upto(gprims, glight, t as int),
            forall|k: int| 0 <= k < fragments@.len()
                ==> vg3_in(vg3((#[trigger] fragments@[k]).obj_position), 0x3000_0000),
            forall|k: int| 0 <= k < fragments@.len()
                ==> -4096 <= (#[trigger] fragments@[k]).position.x <= 4096
                    && -4096 <= fragments@[k].position.y <= 4096,
        decreases rcount - t,
    {
        let rec = records[t];
        proof {
            assert(prim_g(records@[t as int]) == gprims[t as int]);
            vstd::arithmetic::div_mod::lemma_fundamental_div_mod(
                vertex_array@.len() as int, 3);
            lemma_assembled_obj_bounded(
                gscreen, gobj, vertex_array@.len() as int / 3, t as int);
        }
        let ghost pre = fragments@;
        let mut frs = triangle(&rec.s1, &rec.s2, &rec.s3, &rec.o1, &rec.o2, &rec.o3, &light);
        fragments.append(&mut frs);
        proof {
            let p = gprims[t as int];
            assert(fragments@.map_values(|f: Fragment| frag_g(f))
                =~= pre.map_values(|f: Fragment| frag_g(f))
                    + spec_triangle(p.s1, p.s2, p.s3, p.o1, p.o2, p.o3, glight));
        }
        t = t + 1;
    }

    // Fragment processing stage.
    let uniforms = Uniforms { time, resolution, temp, intensity };
    let ghost gfrags = fragments@.map_values(|f: Fragment| frag_g(f));
    let fcount: usize = fragments.len();
    let mut k: usize = 0;
    while k < fcount
        invariant
            k <= fcount,
            fcount == fragments@.len(),
            gfrags == fragments@.map_values(|f: Fragment| frag_g(f)),
            forall|j: int| 0 <= j < fragments@.len()
                ==> vg3_in(vg3((#[trigger] fragments@[j]).obj_position), 0x3000_0000),
            forall|j: int| 0 <= j < fragments@.len()
                ==> -4096 <= (#[trigger] fragments@[j]).position.x <= 4096
                    && -4096 <= fragments@[j].position.y <= 4096,
            uniforms.time == time && uniforms.temp == temp
                && uniforms.intensity == intensity,
            0 <= time <= FX_LIM,
            0 <= temp <= FX_ONE,
            0 <= intensity <= 2 * FX_ONE,
            old(framebuffer)@.wf(),
            framebuffer@.wf(),
            framebuffer@.width == old(framebuffer)@.width,
            framebuffer@.height == old(framebuffer)@.height,
            framebuffer@ == spec_draw(
                old(framebuffer)@, gfrags.take(k as int), time as int, temp as int,
                intensity as int),
        decreases fcount - k,
    {
        let f = fragments[k];
        let ghost prev = framebuffer@;
        let w64: i64 = framebuffer.width() as i64;
        let h64: i64 = framebuffer.height() as i64;
        let shaded = fragment_shader(&f, &uniforms);
        let out = vec3_to_color(shaded);
        framebuffer.set_current_color(out);
        let px = f.position.x;
        let py = f.position.y;
        if px >= 0 && py >= 0 && px < w64 && py < h64 {
            framebuffer.set_pixel(px as u32, py as u32, f.depth);
        }
        proof {
            assert(gfrags.take(k as int + 1).drop_last() =~= gfrags.take(k as int));
            assert(gfrags.take(k as int + 1).last() == frag_g(fragments@[k as int]));
            assert(spec_shade_color(
                frag_g(fragments@[k as int]), time as int, temp as int, intensity as int)
                == out);
            assert(framebuffer@ == spec_set_pixel(
                FbView { current: out, ..prev },
                frag_g(fragments@[k as int]).x, frag_g(fragments@[k as int]).y,
                frag_g(fragments@[k as int]).depth, out));
        }
        k = k + 1;
    }
    proof {
        assert(gfrags.take(fcount as int) =~= gfrags);
        assert(gfrags == spec_frags_upto(gprims, glight, gprims.len() as int));
    }
}

/// The object corners of every assembled record are within the
/// rasterizer's object range, because they come from the shaded vertex
/// sequence.
proof fn lemma_assembled_obj_bounded(
    screen: Seq<Option<VecG3>>, obj: Seq<VecG3>, t: int, k: int,
)
    requires
        0 <= k < spec_assemble(screen, obj, t).len(),
        forall|j: int| 0 <= j < obj.len() ==> vg3_in(#[trigger] obj[j], 0x200_0000),
        3 * t <= obj.len(),
        3 * t <= screen.len(),
    ensures
        vg3_in(spec_assemble(screen, obj, t)[k].o1, 0x1000_0000),
        vg3_in(spec_assemble(screen, obj, t)[k].o2, 0x1000_0000),
        vg3_in(spec_assemble(screen, obj, t)[k].o3, 0x1000_0000),
    decreases t,
{
    if t > 0 {
        let prefix = spec_assemble(screen, obj, t - 1);
        if k < prefix.len() {
            lemma_assembled_obj_bounded(screen, obj, t - 1, k);
        }
    }
}

/// Drawing fragments that all lie outside the framebuffer leaves the
/// color and depth surfaces untouched: every depth-tested write is
/// discarded by the bounds check.
pub proof fn lemma_draw_offscreen_unchanged(
    v: FbView, frags: Seq<FragG>, time: int, temp: int, intensity: int,
)
    requires
        forall|i: int| 0 <= i < frags.len() ==> {
            let f = #[trigger] frags[i];
            f.x < 0 || f.x >= v.width || f.y < 0 || f.y >= v.height
        },
    ensures
        spec_draw(v, frags, time, temp, intensity).colors == v.colors,
        spec_draw(v, frags, time, temp, intensity).depths == v.depths,
        spec_draw(v, frags, time, temp, intensity).width == v.width,
        spec_draw(v, frags, time, temp, intensity).height == v.height,
        spec_draw(v, frags, time, temp, intensity).background == v.background,
    decreases frags.len(),
{
    if frags.len() > 0 {
        lemma_draw_offscreen_unchanged(v, frags.drop_last(), time, temp, intensity);
    }
}

/// Rasterizing and drawing a triangle whose bounding box lies entirely
/// outside the framebuffer touches no pixel of the color or depth
/// surfaces: every fragment lies within the bounding box, and every
/// write outside the framebuffer is discarded.
pub proof fn lemma_offscreen_triangle_touches_no_pixel(
    v: FbView, v1: VecG3, v2: VecG3, v3: VecG3, o1: VecG3, o2: VecG3, o3: VecG3,
    light: VecG3, time: int, temp: int, intensity: int,
)
    requires
        crate::triangle::spec_bbox_max_x(v1, v2, v3) < 0
            || crate::triangle::spec_bbox_min_x(v1, v2, v3) >= v.width
            || crate::triangle::spec_bbox_max_y(v1, v2, v3) < 0
            || crate::triangle::spec_bbox_min_y(v1, v2, v3) >= v.height,
    ensures
        spec_draw(v, spec_triangle(v1, v2, v3, o1, o2, o3, light),
            time, temp, intensity).colors == v.colors,
        spec_draw(v, spec_triangle(v1, v2, v3, o1, o2, o3, light),
            time, temp, intensity).depths == v.depths,
{
    crate::triangle::lemma_triangle_fragments_in_bbox(v1, v2, v3, o1, o2, o3, light);
    lemma_draw_offscreen_unchanged(
        v, spec_triangle(v1, v2, v3, o1, o2, o3, light), time, temp, intensity);
}

} // verus!
