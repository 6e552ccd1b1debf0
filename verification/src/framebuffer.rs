//! The framebuffer: a color surface and a per-pixel depth buffer.
//!
//! A pixel is overwritten only when the incoming depth is strictly less
//! than the stored depth (nearer wins); out-of-bounds or depth-failed
//! writes are discarded silently.  The depth buffer is cleared to
//! `DEPTH_FAR`, the greatest representable depth, which stands for the
//! +infinity a floating-point pipeline would store.

use vstd::prelude::*;
use crate::uniforms::Rgb;

verus! {

/// The cleared depth: farther than every representable fragment depth.
pub const DEPTH_FAR: i64 = 0x7fff_ffff_ffff_ffff;

/// The ghost form of a framebuffer: sequences of pixels and depths.
pub ghost struct FbView {
    pub width: int,
    pub height: int,
    pub colors: Seq<Rgb>,
    pub depths: Seq<int>,
    pub background: Rgb,
    pub current: Rgb,
}

impl FbView {
    /// The row-major index of a pixel.
    pub open spec fn idx(self, x: int, y: int) -> int {
        y * self.width + x
    }

    /// Whether the buffers match the stated dimensions.
    pub open spec fn wf(self) -> bool {
        &&& 0 <= self.width <= 0x8000
        &&& 0 <= self.height <= 0x8000
        &&& self.colors.len() == self.width * self.height
        &&& self.depths.len() == self.width * self.height
    }

    /// The stored color of a pixel.
    pub open spec fn color_at(self, x: int, y: int) -> Rgb {
        self.colors[self.idx(x, y)]
    }

    /// The stored depth of a pixel.
    pub open spec fn depth_at(self, x: int, y: int) -> int {
        self.depths[self.idx(x, y)]
    }
}

/// A pixel index is within the buffers.
pub proof fn lemma_idx_in_range(v: FbView, x: int, y: int)
    requires
        v.wf(),
        0 <= x < v.width,
        0 <= y < v.height,
    ensures
        0 <= v.idx(x, y) < v.colors.len(),
        0 <= v.idx(x, y) < v.depths.len(),
        v.idx(x, y) < 0x4000_0000,
{
    assert(0 <= y * v.width + x < v.height * v.width) by (nonlinear_arith)
        requires
            0 <= x < v.width,
            0 <= y < v.height,
    ;
    assert(v.height * v.width == v.width * v.height) by (nonlinear_arith);
    assert(v.height * v.width <= 0x4000_0000) by (nonlinear_arith)
        requires
            0 <= v.width <= 0x8000,
            0 <= v.height <= 0x8000,
    ;
}

/// The depth-tested pixel write: within bounds and strictly nearer than
/// the stored depth, the color and depth are written; otherwise the
/// framebuffer is unchanged.
pub open spec fn spec_set_pixel(v: FbView, x: int, y: int, depth: int, color: Rgb) -> FbView {
    if 0 <= x < v.width && 0 <= y < v.height && depth < v.depth_at(x, y) {
        FbView {
            colors: v.colors.update(v.idx(x, y), color),
            depths: v.depths.update(v.idx(x, y), depth),
            ..v
        }
    } else {
        v
    }
}

/// The framebuffer: pixel dimensions, a color surface, the clear color,
/// the color the next write paints with, and the depth buffer.
pub struct Framebuffer {
    pub width: u32,
    pub height: u32,
    color_buffer: Vec<Rgb>,
    background_color: Rgb,
    current_color: Rgb,
    depth_buffer: Vec<i64>,
}

impl View for Framebuffer {
    type V = FbView;

    closed spec fn view(&self) -> FbView {
        FbView {
            width: self.width as int,
            height: self.height as int,
            colors: self.color_buffer@,
            depths: self.depth_buffer@.map_values(|d: i64| d as int),
            background: self.background_color,
            current: self.current_color,
        }
    }
}

/// A vector holding `n` copies of a value.
fn filled<T: Copy>(n: usize, value: T) -> (r: Vec<T>)
    ensures
        r@.len() == n,
        forall|i: int| 0 <= i < n ==> r@[i] == value,
{
    let mut r: Vec<T> = Vec::new();
    let mut i: usize = 0;
    while i < n
        invariant
            i <= n,
            r@.len() == i,
            forall|j: int| 0 <= j < i ==> r@[j] == value,
        decreases n - i,
    {
        r.push(value);
        i = i + 1;
    }
    r
}

impl Framebuffer {
    /// Allocates a framebuffer of the given dimensions, every pixel the
    /// background color and every depth `DEPTH_FAR`.
    pub fn new(width: u32, height: u32, background_color: Rgb) -> (r: Framebuffer)
        requires
            width <= 0x8000,
            height <= 0x8000,
        ensures
            r@.wf(),
            r@.width == width,
            r@.height == height,
            r@.background == background_color,
            r@.current == (Rgb { r: 255, g: 255, b: 255 }),
            forall|i: int| 0 <= i < r@.colors.len() ==> r@.colors[i] == background_color,
            forall|i: int| 0 <= i < r@.depths.len() ==> r@.depths[i] == DEPTH_FAR,
    {
        proof {
            assert((width as int) * (height as int) <= 0x4000_0000) by (nonlinear_arith)
                requires
                    width <= 0x8000,
                    height <= 0x8000,
            ;
        }
        let n: usize = (width as usize) * (height as usize);
        let color_buffer = filled::<Rgb>(n, background_color);
        let depth_buffer = filled::<i64>(n, DEPTH_FAR);
        Framebuffer {
            width,
            height,
            color_buffer,
            background_color,
            current_color: Rgb { r: 255, g: 255, b: 255 },
            depth_buffer,
        }
    }

    /// Resets every pixel to the background color and every depth to
    /// `DEPTH_FAR`; called once per frame before rasterization.
    pub fn clear(&mut self)
        requires
            old(self)@.wf(),
        ensures
            final(self)@.wf(),
            final(self)@.width == old(self)@.width,
            final(self)@.height == old(self)@.height,
            final(self)@.background == old(self)@.background,
            final(self)@.current == old(self)@.current,
            forall|i: int| 0 <= i < final(self)@.colors.len()
                ==> final(self)@.colors[i] == old(self)@.background,
            forall|i: int| 0 <= i < final(self)@.depths.len()
                ==> final(self)@.depths[i] == DEPTH_FAR,
    {
        proof {
            assert((self.width as int) * (self.height as int) <= 0x4000_0000)
                by (nonlinear_arith)
                requires
                    self.width <= 0x8000,
                    self.height <= 0x8000,
            ;
        }
        let n: usize = (self.width as usize) * (self.height as usize);
        self.color_buffer = filled::<Rgb>(n, self.background_color);
        self.depth_buffer = filled::<i64>(n, DEPTH_FAR);
    }

    /// Writes one pixel with the current color if it is within bounds
    /// and strictly nearer than the stored depth; otherwise discards
    /// the write silently.
    pub fn set_pixel(&mut self, x: u32, y: u32, depth: i64)
        requires
            old(self)@.wf(),
        ensures
            final(self)@ == spec_set_pixel(
                old(self)@, x as int, y as int, depth as int, old(self)@.current),
            final(self)@.wf(),
    {
        if x < self.width && y < self.height {
            proof {
                lemma_idx_in_range(self@, x as int, y as int);
            }
            let i: usize = ((y as usize) * (self.width as usize)) + (x as usize);
            if depth < self.depth_buffer[i] {
                self.depth_buffer[i] = depth;
                let c = self.current_color;
                self.color_buffer[i] = c;
                proof {
                    assert(final(self)@.depths =~= old(self)@.depths.update(
                        old(self)@.idx(x as int, y as int), depth as int));
                }
            }
        }
    }

    /// The width in pixels, as the view knows it.
    pub fn width(&self) -> (r: u32)
        ensures
            r as int == self@.width,
    {
        self.width
    }

    /// The height in pixels, as the view knows it.
    pub fn height(&self) -> (r: u32)
        ensures
            r as int == self@.height,
    {
        self.height
    }

    /// The stored color of a pixel.
    pub fn get_color(&self, x: u32, y: u32) -> (r: Rgb)
        requires
            self@.wf(),
            x < self@.width,
            y < self@.height,
        ensures
            r == self@.color_at(x as int, y as int),
    {
        proof {
            lemma_idx_in_range(self@, x as int, y as int);
        }
        let i: usize = ((y as usize) * (self.width as usize)) + (x as usize);
        self.color_buffer[i]
    }

    /// The stored depth of a pixel.
    pub fn get_depth(&self, x: u32, y: u32) -> (r: i64)
        requires
            self@.wf(),
            x < self@.width,
            y < self@.height,
        ensures
            r == self@.depth_at(x as int, y as int),
    {
        proof {
            lemma_idx_in_range(self@, x as int, y as int);
        }
        let i: usize = ((y as usize) * (self.width as usize)) + (x as usize);
        self.depth_buffer[i]
    }

    /// Sets the color that `clear` paints with.
    pub fn set_background_color(&mut self, color: Rgb)
        ensures
            final(self)@ == (FbView { background: color, ..old(self)@ }),
    {
        self.background_color = color;
    }

    /// Sets the color that `set_pixel` paints with.
    pub fn set_current_color(&mut self, color: Rgb)
        ensures
            final(self)@ == (FbView { current: color, ..old(self)@ }),
    {
        self.current_color = color;
    }
}

/// Writing the same fragment twice leaves the framebuffer exactly as
/// writing it once: the first write stores its depth, and the strict
/// depth test rejects the repeat.
pub proof fn lemma_set_pixel_idempotent(v: FbView, x: int, y: int, depth: int, color: Rgb)
    requires
        v.wf(),
    ensures
        spec_set_pixel(spec_set_pixel(v, x, y, depth, color), x, y, depth, color)
            == spec_set_pixel(v, x, y, depth, color),
{
    if 0 <= x < v.width && 0 <= y < v.height && depth < v.depth_at(x, y) {
        let v1 = spec_set_pixel(v, x, y, depth, color);
        lemma_idx_in_range(v, x, y);
        assert(v1.depth_at(x, y) == depth);
    }
}

/// Nearer wins: two fragments at one pixel with distinct depths leave
/// the color of the nearer one, whichever order they arrive in,
/// provided the pixel's stored depth does not already beat the nearer
/// fragment.
pub proof fn lemma_nearer_fragment_wins(
    v: FbView, x: int, y: int, d1: int, c1: Rgb, d2: int, c2: Rgb,
)
    requires
        v.wf(),
        0 <= x < v.width,
        0 <= y < v.height,
        d1 < d2,
        d1 < v.depth_at(x, y),
    ensures
        spec_set_pixel(spec_set_pixel(v, x, y, d1, c1), x, y, d2, c2).color_at(x, y) == c1,
        spec_set_pixel(spec_set_pixel(v, x, y, d2, c2), x, y, d1, c1).color_at(x, y) == c1,
{
    lemma_idx_in_range(v, x, y);
    let va = spec_set_pixel(v, x, y, d1, c1);
    assert(va.depth_at(x, y) == d1 && va.color_at(x, y) == c1);
    let vb = spec_set_pixel(v, x, y, d2, c2);
    let vb1 = spec_set_pixel(vb, x, y, d1, c1);
    assert(vb1.color_at(x, y) == c1);
}

} // verus!
