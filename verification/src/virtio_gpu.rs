//! VirtIO GPU: software drawing surfaces, the layer compositor, and the
//! bookkeeping of the display's front and back buffers.
use vstd::prelude::*;
use crate::util::{decimal, push_decimal, push_text};

verus! {

/// Index of pixel (`x`, `y`) in a row-major buffer of rows `w` pixels wide.
pub open spec fn pixel_index(w: int, x: int, y: int) -> int {
    y * w + x
}

pub proof fn lemma_pixel_index_bounds(w: int, h: int, x: int, y: int)
    requires
        0 <= x < w,
        0 <= y < h,
    ensures
        0 <= pixel_index(w, x, y) < w * h,
        pixel_index(w, x, y) + 1 <= w * h,
{
    assert(0 <= y * w + x < w * h) by (nonlinear_arith)
        requires 0 <= x < w, 0 <= y < h;
}

pub proof fn lemma_pixel_index_inj(w: int, x1: int, y1: int, x2: int, y2: int)
    requires
        0 <= x1 < w,
        0 <= x2 < w,
        0 <= y1,
        0 <= y2,
        pixel_index(w, x1, y1) == pixel_index(w, x2, y2),
    ensures
        x1 == x2,
        y1 == y2,
{
    assert(y1 == y2) by (nonlinear_arith)
        requires 0 <= x1 < w, 0 <= x2 < w, 0 <= y1, 0 <= y2, y1 * w + x1 == y2 * w + x2;
}

/// A 32-bit ARGB drawing surface.
pub struct GpuSurface {
    pub zj: u32,
    pub width: u32,
    pub height: u32,
    /// Pixels, row after row.
    pub data: Vec<u32>,
}

impl GpuSurface {
    /// The buffer holds exactly one entry per pixel.
    pub open spec fn wf(&self) -> bool {
        &&& self.data@.len() == self.width * self.height
        &&& self.width * self.height <= u32::MAX
    }

    /// Colour of pixel (`x`, `y`), for a pixel inside the surface.
    pub open spec fn pixel(&self, x: int, y: int) -> u32 {
        self.data@[pixel_index(self.width as int, x, y)]
    }

    pub open spec fn in_bounds(&self, x: int, y: int) -> bool {
        0 <= x < self.width && 0 <= y < self.height
    }

    /// A surface of `width` x `height` pixels, all 0.
    pub fn new(width: u32, height: u32) -> (s: Self)
        requires
            width * height <= u32::MAX,
        ensures
            s.wf(),
            s.width == width,
            s.height == height,
            s.zj == 0,
            forall|x: int, y: int| s.in_bounds(x, y) ==> #[trigger] s.pixel(x, y) == 0,
    {
        let size = (width * height) as usize;
        let s = GpuSurface { zj: 0, width, height, data: vec![0u32; size] };
        assert forall|x: int, y: int| s.in_bounds(x, y) implies #[trigger] s.pixel(x, y) == 0 by {
            lemma_pixel_index_bounds(width as int, height as int, x, y);
        }
        s
    }

    /// Sets every pixel to `color`.
    pub fn clear(&mut self, color: u32)
        requires
            old(self).wf(),
        ensures
            final(self).wf(),
            final(self).width == old(self).width,
            final(self).height == old(self).height,
            final(self).zj == old(self).zj,
            forall|x: int, y: int| final(self).in_bounds(x, y) ==> #[trigger] final(self).pixel(x, y) == color,
    {
        let n = self.data.len();
        let mut i: usize = 0;
        while i < n
            invariant
                i <= n,
                n == self.data@.len(),
                self.wf(),
                self.width == old(self).width,
                self.height == old(self).height,
                self.zj == old(self).zj,
                forall|j: int| 0 <= j < i ==> self.data@[j] == color,
            decreases n - i,
        {
            self.data.set(i, color);
            i = i + 1;
        }
        assert forall|x: int, y: int| self.in_bounds(x, y) implies #[trigger] self.pixel(x, y) == color by {
            lemma_pixel_index_bounds(self.width as int, self.height as int, x, y);
        }
    }

    /// Sets pixel (`x`, `y`) to `color`; does nothing outside the surface.
    pub fn set_pixel(&mut self, x: u32, y: u32, color: u32)
        requires
            old(self).wf(),
        ensures
            final(self).wf(),
            final(self).width == old(self).width,
            final(self).height == old(self).height,
            final(self).zj == old(self).zj,
            forall|a: int, b: int| final(self).in_bounds(a, b) ==> #[trigger] final(self).pixel(a, b) == (
                if a == x && b == y { color } else { old(self).pixel(a, b) }),
    {
        if x < self.width && y < self.height {
            proof { lemma_pixel_index_bounds(self.width as int, self.height as int, x as int, y as int); }
            let i = (y * self.width + x) as usize;
            let ghost before = self.data@;
            self.data.set(i, color);
            assert forall|a: int, b: int| self.in_bounds(a, b) implies #[trigger] self.pixel(a, b) == (
                if a == x && b == y { color } else { before[pixel_index(self.width as int, a, b)] }) by {
                lemma_pixel_index_bounds(self.width as int, self.height as int, a, b);
                if pixel_index(self.width as int, a, b) == pixel_index(self.width as int, x as int, y as int) {
                    lemma_pixel_index_inj(self.width as int, a, b, x as int, y as int);
                }
            }
        }
    }

    /// Colour of pixel (`x`, `y`); 0 outside the surface.
    pub fn get_pixel(&self, x: u32, y: u32) -> (c: u32)
        requires
            self.wf(),
        ensures
            c == (if self.in_bounds(x as int, y as int) { self.pixel(x as int, y as int) } else { 0 }),
    {
        if x < self.width && y < self.height {
            proof { lemma_pixel_index_bounds(self.width as int, self.height as int, x as int, y as int); }
            self.data[(y * self.width + x) as usize]
        } else {
            0
        }
    }
}

/// Reading a pixel gives back what was last written there, and writing a
/// pixel leaves every other pixel as it was.
pub proof fn law_pixel_read_after_write(before: GpuSurface, after: GpuSurface, x: u32, y: u32, color: u32, a: int, b: int)
    requires
        before.wf(),
        after.wf(),
        after.width == before.width,
        after.height == before.height,
        forall|p: int, q: int| after.in_bounds(p, q) ==> #[trigger] after.pixel(p, q) == (
            if p == x && q == y { color } else { before.pixel(p, q) }),
        before.in_bounds(a, b),
    ensures
        (a == x && b == y) ==> after.pixel(a, b) == color,
        !(a == x && b == y) ==> after.pixel(a, b) == before.pixel(a, b),
{
    assert(after.pixel(a, b) == (if a == x && b == y { color } else { before.pixel(a, b) }));
}


impl GpuSurface {
    /// The surface keeps its size and buffer shape.
    pub open spec fn same_shape(&self, other: &GpuSurface) -> bool {
        &&& self.wf()
        &&& self.width == other.width
        &&& self.height == other.height
        &&& self.zj == other.zj
    }

    /// Sets pixel (`x`, `y`), given in signed coordinates, when it lies inside.
    fn set_pixel_safe(&mut self, x: i32, y: i32, color: u32)
        requires
            old(self).wf(),
        ensures
            final(self).same_shape(old(self)),
            forall|a: int, b: int| final(self).in_bounds(a, b) ==> #[trigger] final(self).pixel(a, b) == (
                if a == x && b == y { color } else { old(self).pixel(a, b) }),
    {
        if x >= 0 && y >= 0 && (x as i64) < (self.width as i64) && (y as i64) < (self.height as i64) {
            self.set_pixel(x as u32, y as u32, color);
        }
    }

    /// Fills the rectangle at (`x`, `y`) of `w` x `h` pixels, clipped to the surface.
    pub fn fill_rect(&mut self, x: u32, y: u32, w: u32, h: u32, color: u32)
        requires
            old(self).wf(),
            x + w <= u32::MAX,
            y + h <= u32::MAX,
        ensures
            final(self).same_shape(old(self)),
            forall|a: int, b: int| final(self).in_bounds(a, b) ==> #[trigger] final(self).pixel(a, b) == (
                if x <= a < x + w && y <= b < y + h { color } else { old(self).pixel(a, b) }),
    {
        let x1 = if x < self.width { x } else { self.width };
        let y1 = if y < self.height { y } else { self.height };
        let x2 = if x + w < self.width { x + w } else { self.width };
        let y2 = if y + h < self.height { y + h } else { self.height };
        let ghost old_self = *old(self);
        let mut o: u32 = y1;
        while o < y2
            invariant
                y1 <= o <= y2 <= self.height,
                x1 <= x2 <= self.width,
                x1 == (if x < old_self.width { x as int } else { old_self.width as int }),
                x2 == (if x + w < old_self.width { x + w } else { old_self.width as int }),
                y1 == (if y < old_self.height { y as int } else { old_self.height as int }),
                y2 == (if y + h < old_self.height { y + h } else { old_self.height as int }),
                old_self.wf(),
                self.same_shape(&old_self),
                forall|a: int, b: int| self.in_bounds(a, b) ==> #[trigger] self.pixel(a, b) == (
                    if x <= a < x + w && y <= b < o { color } else { old_self.pixel(a, b) }),
            decreases y2 - o,
        {
            let mut i: u32 = x1;
            while i < x2
                invariant
                    y1 <= o < y2 <= self.height,
                    x1 <= i <= x2 <= self.width,
                    x1 == (if x < old_self.width { x as int } else { old_self.width as int }),
                    x2 == (if x + w < old_self.width { x + w } else { old_self.width as int }),
                    y1 == (if y < old_self.height { y as int } else { old_self.height as int }),
                    y2 == (if y + h < old_self.height { y + h } else { old_self.height as int }),
                    old_self.wf(),
                    self.same_shape(&old_self),
                    forall|a: int, b: int| self.in_bounds(a, b) ==> #[trigger] self.pixel(a, b) == (
                        if (x <= a < x + w && y <= b < o) || (b == o && x <= a < i) { color } else { old_self.pixel(a, b) }),
                decreases x2 - i,
            {
                self.set_pixel(i, o, color);
                i = i + 1;
            }
            o = o + 1;
        }
    }

    /// Same as `fill_rect`; the corner radius is not drawn.
    pub fn fill_rounded_rect(&mut self, x: u32, y: u32, w: u32, h: u32, _radius: u32, color: u32)
        requires
            old(self).wf(),
            x + w <= u32::MAX,
            y + h <= u32::MAX,
        ensures
            final(self).same_shape(old(self)),
            forall|a: int, b: int| final(self).in_bounds(a, b) ==> #[trigger] final(self).pixel(a, b) == (
                if x <= a < x + w && y <= b < y + h { color } else { old(self).pixel(a, b) }),
    {
        self.fill_rect(x, y, w, h, color);
    }

    /// Whether source pixel (`sx`, `sy`) of `src` is drawn by a blit: it
    /// lies in `src` and its alpha byte is at least 128.
    pub open spec fn blit_source_drawn(src: &GpuSurface, sx: int, sy: int) -> bool {
        &&& src.in_bounds(sx, sy)
        &&& (src.pixel(sx, sy) >> 24) & 0xFF >= 128
    }

    /// Copies `src` onto this surface with its top-left corner at
    /// (`dst_x`, `dst_y`), skipping source pixels whose alpha is below 128 and
    /// destination pixels outside the surface.
    pub fn blit(&mut self, src: &GpuSurface, dst_x: i32, dst_y: i32)
        requires
            old(self).wf(),
            src.wf(),
            old(self).width <= i32::MAX,
            old(self).height <= i32::MAX,
            src.width <= i32::MAX,
            src.height <= i32::MAX,
            dst_x + src.width <= i32::MAX,
            dst_y + src.height <= i32::MAX,
        ensures
            final(self).same_shape(old(self)),
            forall|a: int, b: int| final(self).in_bounds(a, b) ==> #[trigger] final(self).pixel(a, b) == (
                if Self::blit_source_drawn(src, a - dst_x, b - dst_y) { src.pixel(a - dst_x, b - dst_y) }
                else { old(self).pixel(a, b) }),
    {
        let ghost old_self = *old(self);
        let mut ak: u32 = 0;
        while ak < src.height
            invariant
                ak <= src.height,
                src.wf(),
                old_self.wf(),
                self.same_shape(&old_self),
                self.width <= i32::MAX,
                self.height <= i32::MAX,
                src.width <= i32::MAX,
                src.height <= i32::MAX,
                dst_x + src.width <= i32::MAX,
                dst_y + src.height <= i32::MAX,
                forall|a: int, b: int| self.in_bounds(a, b) ==> #[trigger] self.pixel(a, b) == (
                    if b - dst_y < ak && Self::blit_source_drawn(src, a - dst_x, b - dst_y) { src.pixel(a - dst_x, b - dst_y) }
                    else { old_self.pixel(a, b) }),
            decreases src.height - ak,
        {
            let mut am: u32 = 0;
            while am < src.width
                invariant
                    ak < src.height,
                    am <= src.width,
                    src.wf(),
                    old_self.wf(),
                    self.same_shape(&old_self),
                    self.width <= i32::MAX,
                    self.height <= i32::MAX,
                    src.width <= i32::MAX,
                    src.height <= i32::MAX,
                    dst_x + src.width <= i32::MAX,
                    dst_y + src.height <= i32::MAX,
                    forall|a: int, b: int| self.in_bounds(a, b) ==> #[trigger] self.pixel(a, b) == (
                        if (b - dst_y < ak || (b - dst_y == ak && a - dst_x < am)) && Self::blit_source_drawn(src, a - dst_x, b - dst_y) { src.pixel(a - dst_x, b - dst_y) }
                        else { old_self.pixel(a, b) }),
                decreases src.width - am,
            {
                let dx: i32 = dst_x + am as i32;
                let ad: i32 = dst_y + ak as i32;
                if dx >= 0 && ad >= 0 && (dx as i64) < (self.width as i64) && (ad as i64) < (self.height as i64) {
                    let ct = src.get_pixel(am, ak);
                    let alpha = (ct >> 24) & 0xFF;
                    if alpha >= 128 {
                        self.set_pixel(dx as u32, ad as u32, ct);
                    }
                }
                am = am + 1;
            }
            ak = ak + 1;
        }
    }

    /// Fills the disc of radius `radius` around (`cx`, `u`), clipped to the surface.
    pub fn fill_circle(&mut self, cx: i32, u: i32, radius: i32, color: u32)
        requires
            old(self).wf(),
            radius <= 32767,
            cx - 32767 >= i32::MIN,
            cx + 32767 <= i32::MAX,
            u - 32767 >= i32::MIN,
            u + 32767 <= i32::MAX,
        ensures
            final(self).same_shape(old(self)),
            forall|a: int, b: int| final(self).in_bounds(a, b) ==> #[trigger] final(self).pixel(a, b) == (
                if -radius <= a - cx <= radius && -radius <= b - u <= radius
                    && (a - cx) * (a - cx) + (b - u) * (b - u) <= radius * radius { color }
                else { old(self).pixel(a, b) }),
    {
        let ghost old_self = *old(self);
        if radius < 0 {
            return;
        }
        let mut ad: i32 = -radius;
        while ad <= radius
            invariant
                0 <= radius <= 32767,
                -radius <= ad <= radius + 1,
                cx - 32767 >= i32::MIN,
                cx + 32767 <= i32::MAX,
                u - 32767 >= i32::MIN,
                u + 32767 <= i32::MAX,
                old_self.wf(),
                self.same_shape(&old_self),
                forall|a: int, b: int| self.in_bounds(a, b) ==> #[trigger] self.pixel(a, b) == (
                    if -radius <= a - cx <= radius && -radius <= b - u < ad
                        && (a - cx) * (a - cx) + (b - u) * (b - u) <= radius * radius { color }
                    else { old_self.pixel(a, b) }),
            decreases radius + 1 - ad,
        {
            let mut dx: i32 = -radius;
            while dx <= radius
                invariant
                    0 <= radius <= 32767,
                    -radius <= ad <= radius,
                    -radius <= dx <= radius + 1,
                    cx - 32767 >= i32::MIN,
                    cx + 32767 <= i32::MAX,
                    u - 32767 >= i32::MIN,
                    u + 32767 <= i32::MAX,
                    old_self.wf(),
                    self.same_shape(&old_self),
                    forall|a: int, b: int| self.in_bounds(a, b) ==> #[trigger] self.pixel(a, b) == (
                        if -radius <= a - cx <= radius && (-radius <= b - u < ad || (b - u == ad && a - cx < dx))
                            && (a - cx) * (a - cx) + (b - u) * (b - u) <= radius * radius { color }
                        else { old_self.pixel(a, b) }),
                decreases radius + 1 - dx,
            {
                assert(dx * dx <= 32767 * 32767) by (nonlinear_arith)
                    requires -32767 <= dx <= 32767;
                assert(ad * ad <= 32767 * 32767) by (nonlinear_arith)
                    requires -32767 <= ad <= 32767;
                assert(radius * radius <= 32767 * 32767) by (nonlinear_arith)
                    requires 0 <= radius <= 32767;
                assert(dx * dx >= 0 && ad * ad >= 0) by (nonlinear_arith);
                if dx * dx + ad * ad <= radius * radius {
                    self.set_pixel_safe(cx + dx, u + ad, color);
                }
                dx = dx + 1;
            }
            ad = ad + 1;
        }
    }
}


/// The eight points of a circle that one step of the midpoint algorithm
/// draws, for offsets (`x`, `y`) around (`cx`, `cy`).
pub open spec fn octant_points(cx: int, cy: int, x: int, y: int) -> Set<(int, int)> {
    set![(cx + x, cy + y), (cx + y, cy + x), (cx - y, cy + x), (cx - x, cy + y),
        (cx - x, cy - y), (cx - y, cy - x), (cx + y, cy - x), (cx + x, cy - y)]
}

/// Points that the midpoint circle algorithm draws from state (`x`, `y`, `err`) on.
pub open spec fn circle_points_from(cx: int, cy: int, x: int, y: int, err: int) -> Set<(int, int)>
    decreases x - y + 2,
{
    if x < y {
        Set::empty()
    } else {
        let y2 = y + 1;
        let err2 = err + 1 + 2 * y2;
        let (x3, err3) = if 2 * (err2 - x) + 1 > 0 { (x - 1, err2 + 1 - 2 * (x - 1)) } else { (x, err2) };
        octant_points(cx, cy, x, y).union(circle_points_from(cx, cy, x3, y2, err3))
    }
}

/// Points of the circle of radius `r` around (`cx`, `cy`) as the midpoint algorithm draws it.
pub open spec fn circle_points(cx: int, cy: int, r: int) -> Set<(int, int)> {
    circle_points_from(cx, cy, r, 0, 0)
}

/// Source pixel that a scaled copy reads for destination offset (`dx`, `dy`).
pub open spec fn scaled_source(src: &GpuSurface, dst_w: int, dst_h: int, dx: int, dy: int) -> u32 {
    src.pixel((dx * src.width) / dst_w, (dy * src.height) / dst_h)
}

proof fn lemma_scaled_in_range(d: int, s: int, n: int)
    requires
        0 <= d < n,
        0 < s,
        d * s <= u32::MAX,
    ensures
        0 <= (d * s) / n < s,
{
    assert(0 <= (d * s) / n < s) by (nonlinear_arith)
        requires 0 <= d < n, 0 < s;
}

impl GpuSurface {
    /// Draws the outline of a circle with the midpoint algorithm.
    pub fn draw_circle(&mut self, cx: i32, u: i32, radius: i32, color: u32)
        requires
            old(self).wf(),
            radius <= 16383,
            cx - 16384 >= i32::MIN,
            cx + 16384 <= i32::MAX,
            u - 16384 >= i32::MIN,
            u + 16384 <= i32::MAX,
        ensures
            final(self).same_shape(old(self)),
            forall|a: int, b: int| final(self).in_bounds(a, b) ==> #[trigger] final(self).pixel(a, b) == (
                if circle_points(cx as int, u as int, radius as int).contains((a, b)) { color }
                else { old(self).pixel(a, b) }),
    {
        let ghost old_self = *old(self);
        let ghost full = circle_points(cx as int, u as int, radius as int);
        let mut x: i32 = radius;
        let mut y: i32 = 0;
        let mut err: i32 = 0;
        let ghost mut done: Set<(int, int)> = Set::empty();
        while x >= y
            invariant
                old_self.wf(),
                self.same_shape(&old_self),
                radius <= 16383,
                cx - 16384 >= i32::MIN,
                cx + 16384 <= i32::MAX,
                u - 16384 >= i32::MIN,
                u + 16384 <= i32::MAX,
                x <= radius,
                0 <= y,
                x >= y ==> x >= 0,
                y <= (if radius >= 0 { radius + 1 } else { 0int }),
                x >= (if radius >= 0 { -1int } else { radius as int }),
                err == x * x + y * y - radius * radius + 2 * y + 2 * radius - 2 * x,
                done.union(circle_points_from(cx as int, u as int, x as int, y as int, err as int)) == full,
                forall|a: int, b: int| self.in_bounds(a, b) ==> #[trigger] self.pixel(a, b) == (
                    if done.contains((a, b)) { color } else { old_self.pixel(a, b) }),
            decreases x - y + 2,
        {
            let ghost step = octant_points(cx as int, u as int, x as int, y as int);
            self.set_pixel_safe(cx + x, u + y, color);
            self.set_pixel_safe(cx + y, u + x, color);
            self.set_pixel_safe(cx - y, u + x, color);
            self.set_pixel_safe(cx - x, u + y, color);
            self.set_pixel_safe(cx - x, u - y, color);
            self.set_pixel_safe(cx - y, u - x, color);
            self.set_pixel_safe(cx + y, u - x, color);
            self.set_pixel_safe(cx + x, u - y, color);
            let ghost (gx, gy, ge) = (x as int, y as int, err as int);
            assert(x * x <= 16383 * 16383 && y * y <= 16383 * 16383 && radius * radius <= 16383 * 16383) by (nonlinear_arith)
                requires 0 <= y <= x <= radius <= 16383;
            assert(x * x >= 0 && y * y >= 0) by (nonlinear_arith);
            y = y + 1;
            err = err + 1 + 2 * y;
            assert(err == x * x + (y - 1) * (y - 1) - radius * radius + 2 * (y - 1) + 2 * radius - 2 * x + 1 + 2 * y);
            assert((y - 1) * (y - 1) + 2 * (y - 1) + 1 + 2 * y == y * y + 2 * y) by (nonlinear_arith);
            if 2 * (err - x) + 1 > 0 {
                x = x - 1;
                err = err + 1 - 2 * x;
                assert((x + 1) * (x + 1) - 2 * (x + 1) + 1 - 2 * x == x * x - 2 * x) by (nonlinear_arith);
            }
            proof {
                let rest = circle_points_from(cx as int, u as int, x as int, y as int, err as int);
                assert(circle_points_from(cx as int, u as int, gx, gy, ge) == step.union(rest));
                assert(done.union(step).union(rest) =~= done.union(step.union(rest)));
                done = done.union(step);
            }
        }
        proof {
            assert(circle_points_from(cx as int, u as int, x as int, y as int, err as int) == Set::<(int, int)>::empty());
            assert(done.union(Set::<(int, int)>::empty()) =~= done);
        }
    }

    /// Copies `src` scaled to `dst_w` x `dst_h` pixels at (`dst_x`, `dst_y`),
    /// by nearest-neighbour sampling; nothing happens when a size is zero.
    pub fn pyv(&mut self, src: &GpuSurface, dst_x: i32, dst_y: i32, dst_w: u32, dst_h: u32)
        requires
            old(self).wf(),
            src.wf(),
            old(self).width <= i32::MAX,
            old(self).height <= i32::MAX,
            dst_w * src.width <= u32::MAX,
            dst_h * src.height <= u32::MAX,
            dst_w <= i32::MAX,
            dst_h <= i32::MAX,
            dst_x + dst_w <= i32::MAX,
            dst_y + dst_h <= i32::MAX,
        ensures
            final(self).same_shape(old(self)),
            forall|a: int, b: int| final(self).in_bounds(a, b) ==> #[trigger] final(self).pixel(a, b) == (
                if dst_w > 0 && dst_h > 0 && src.width > 0 && src.height > 0
                    && 0 <= a - dst_x < dst_w && 0 <= b - dst_y < dst_h {
                    scaled_source(src, dst_w as int, dst_h as int, a - dst_x, b - dst_y)
                } else { old(self).pixel(a, b) }),
    {
        if dst_w == 0 || dst_h == 0 || src.width == 0 || src.height == 0 {
            return;
        }
        let ghost old_self = *old(self);
        let mut ad: u32 = 0;
        while ad < dst_h
            invariant
                ad <= dst_h,
                dst_w > 0 && dst_h > 0 && src.width > 0 && src.height > 0,
                src.wf(),
                old_self.wf(),
                self.same_shape(&old_self),
                self.width <= i32::MAX,
                self.height <= i32::MAX,
                dst_w * src.width <= u32::MAX,
                dst_h * src.height <= u32::MAX,
                dst_w <= i32::MAX,
                dst_h <= i32::MAX,
                dst_x + dst_w <= i32::MAX,
                dst_y + dst_h <= i32::MAX,
                forall|a: int, b: int| self.in_bounds(a, b) ==> #[trigger] self.pixel(a, b) == (
                    if 0 <= a - dst_x < dst_w && 0 <= b - dst_y < ad {
                        scaled_source(src, dst_w as int, dst_h as int, a - dst_x, b - dst_y)
                    } else { old_self.pixel(a, b) }),
            decreases dst_h - ad,
        {
            let mut dx: u32 = 0;
            while dx < dst_w
                invariant
                    ad < dst_h,
                    dx <= dst_w,
                    dst_w > 0 && dst_h > 0 && src.width > 0 && src.height > 0,
                    src.wf(),
                    old_self.wf(),
                    self.same_shape(&old_self),
                    self.width <= i32::MAX,
                    self.height <= i32::MAX,
                    dst_w * src.width <= u32::MAX,
                    dst_h * src.height <= u32::MAX,
                    dst_w <= i32::MAX,
                    dst_h <= i32::MAX,
                    dst_x + dst_w <= i32::MAX,
                    dst_y + dst_h <= i32::MAX,
                    forall|a: int, b: int| self.in_bounds(a, b) ==> #[trigger] self.pixel(a, b) == (
                        if 0 <= a - dst_x < dst_w && (0 <= b - dst_y < ad || (b - dst_y == ad && 0 <= a - dst_x < dx)) {
                            scaled_source(src, dst_w as int, dst_h as int, a - dst_x, b - dst_y)
                        } else { old_self.pixel(a, b) }),
                decreases dst_w - dx,
            {
                assert(dx * src.width <= dst_w * src.width) by (nonlinear_arith)
                    requires dx <= dst_w;
                assert(ad * src.height <= dst_h * src.height) by (nonlinear_arith)
                    requires ad <= dst_h;
                let am = (dx * src.width) / dst_w;
                let ak = (ad * src.height) / dst_h;
                proof {
                    lemma_scaled_in_range(dx as int, src.width as int, dst_w as int);
                    lemma_scaled_in_range(ad as int, src.height as int, dst_h as int);
                }
                let p: i32 = dst_x + dx as i32;
                let o: i32 = dst_y + ad as i32;
                if p >= 0 && o >= 0 && (p as i64) < (self.width as i64) && (o as i64) < (self.height as i64) {
                    let c = src.get_pixel(am, ak);
                    self.set_pixel(p as u32, o as u32, c);
                }
                dx = dx + 1;
            }
            ad = ad + 1;
        }
    }
}

/// Position along one axis after `k` steps from `a0` toward `a1`.
pub open spec fn axis_pos(a0: int, a1: int, k: int) -> int {
    if a0 < a1 {
        a0 + k
    } else {
        a0 - k
    }
}

/// Points of a line drawn by Bresenham's algorithm from (`x0`, `y0`) to
/// (`x1`, `y1`), from the state after `px` horizontal and `py` vertical
/// steps with error term `err` (`dx`, `dy`: the distances along each axis),
/// for at most `fuel` more steps.
pub open spec fn bres_points(
    x0: int,
    y0: int,
    x1: int,
    y1: int,
    px: int,
    py: int,
    err: int,
    fuel: nat,
) -> Set<(int, int)>
    decreases fuel,
{
    let dx = abs_diff(x0, x1);
    let dy = abs_diff(y0, y1);
    let p = (axis_pos(x0, x1, px), axis_pos(y0, y1, py));
    if fuel == 0 || (px == dx && py == dy) {
        set![p]
    } else {
        let e2 = 2 * err;
        let (px2, err2) = if e2 >= -dy { (px + 1, err - dy) } else { (px, err) };
        let (py2, err3) = if e2 <= dx { (py + 1, err2 + dx) } else { (py, err2) };
        set![p].union(bres_points(x0, y0, x1, y1, px2, py2, err3, (fuel - 1) as nat))
    }
}

pub open spec fn abs_diff(a: int, b: int) -> int {
    if a < b {
        b - a
    } else {
        a - b
    }
}

/// Points of the line from (`x0`, `y0`) to (`x1`, `y1`) as Bresenham's
/// algorithm draws them.
pub open spec fn line_points(x0: int, y0: int, x1: int, y1: int) -> Set<(int, int)> {
    bres_points(x0, y0, x1, y1, 0, 0, abs_diff(x0, x1) - abs_diff(y0, y1), (abs_diff(x0, x1) + abs_diff(y0, y1)) as nat)
}

/// The error term after `px` horizontal and `py` vertical steps.
pub open spec fn bres_err(dx: int, dy: int, px: int, py: int) -> int {
    dx * (1 + py) - dy * (1 + px)
}

/// A Bresenham step never overshoots: with every horizontal step done but
/// not every vertical one no horizontal step is taken, and the other way
/// round; and some step is always taken.
proof fn lemma_bres_step(dx: int, dy: int, px: int, py: int)
    requires
        0 <= px <= dx,
        0 <= py <= dy,
        !(px == dx && py == dy),
    ensures
        px == dx ==> 2 * bres_err(dx, dy, px, py) < -dy,
        py == dy ==> 2 * bres_err(dx, dy, px, py) > dx,
        2 * bres_err(dx, dy, px, py) >= -dy || 2 * bres_err(dx, dy, px, py) <= dx,
        bres_err(dx, dy, px + 1, py) == bres_err(dx, dy, px, py) - dy,
        bres_err(dx, dy, px, py + 1) == bres_err(dx, dy, px, py) + dx,
        bres_err(dx, dy, px + 1, py + 1) == bres_err(dx, dy, px, py) - dy + dx,
{
    assert(bres_err(dx, dy, px + 1, py) == bres_err(dx, dy, px, py) - dy) by (nonlinear_arith);
    assert(bres_err(dx, dy, px, py + 1) == bres_err(dx, dy, px, py) + dx) by (nonlinear_arith);
    assert(bres_err(dx, dy, px + 1, py + 1) == bres_err(dx, dy, px, py) - dy + dx) by (nonlinear_arith);
    if px == dx {
        assert(2 * bres_err(dx, dy, px, py) < -dy) by (nonlinear_arith)
            requires
                px == dx,
                0 <= py < dy,
                0 <= dx,
        {
            assert(dx * (1 + py) <= dx * dy) by (nonlinear_arith)
                requires
                    0 <= dx,
                    1 + py <= dy,
            ;
        }
    }
    if py == dy {
        assert(2 * bres_err(dx, dy, px, py) > dx) by (nonlinear_arith)
            requires
                py == dy,
                0 <= px < dx,
                0 <= dy,
        {
            assert(dy * (1 + px) <= dy * dx) by (nonlinear_arith)
                requires
                    0 <= dy,
                    1 + px <= dx,
            ;
        }
    }
}

impl GpuSurface {
    /// Draws the line from (`x0`, `y0`) to (`x1`, `y1`) with Bresenham's
    /// algorithm, both ends included, clipped to the surface.
    pub fn draw_line(&mut self, x0: i32, y0: i32, x1: i32, y1: i32, color: u32)
        requires
            old(self).wf(),
            -i32::MAX <= x1 - x0 <= i32::MAX,
            -i32::MAX <= y1 - y0 <= i32::MAX,
        ensures
            final(self).same_shape(old(self)),
            forall|a: int, b: int| final(self).in_bounds(a, b) ==> #[trigger] final(self).pixel(a, b) == (
                if line_points(x0 as int, y0 as int, x1 as int, y1 as int).contains((a, b)) { color }
                else { old(self).pixel(a, b) }),
    {
        let ghost old_self = *old(self);
        let ghost all = line_points(x0 as int, y0 as int, x1 as int, y1 as int);
        let dx: i64 = if x0 < x1 { x1 as i64 - x0 as i64 } else { x0 as i64 - x1 as i64 };
        let dy: i64 = if y0 < y1 { y1 as i64 - y0 as i64 } else { y0 as i64 - y1 as i64 };
        let am: i32 = if x0 < x1 { 1 } else { -1 };
        let ak: i32 = if y0 < y1 { 1 } else { -1 };
        let mut err: i64 = dx - dy;
        let mut x = x0;
        let mut y = y0;
        let ghost mut px: int = 0;
        let ghost mut py: int = 0;
        let ghost mut fuel: nat = (dx + dy) as nat;
        let ghost mut drawn: Set<(int, int)> = Set::empty();
        proof {
            assert(bres_err(dx as int, dy as int, 0, 0) == dx - dy) by (nonlinear_arith);
        }
        loop
            invariant_except_break
                old_self.wf(),
                self.same_shape(&old_self),
                0 <= dx <= i32::MAX,
                0 <= dy <= i32::MAX,
                dx == abs_diff(x0 as int, x1 as int),
                dy == abs_diff(y0 as int, y1 as int),
                am == (if x0 < x1 { 1int } else { -1int }),
                ak == (if y0 < y1 { 1int } else { -1int }),
                0 <= px <= dx,
                0 <= py <= dy,
                x == axis_pos(x0 as int, x1 as int, px),
                y == axis_pos(y0 as int, y1 as int, py),
                err == bres_err(dx as int, dy as int, px, py),
                -2 * dy <= err <= 2 * dx,
                (dx - px) + (dy - py) <= fuel,
                all == drawn.union(bres_points(x0 as int, y0 as int, x1 as int, y1 as int, px, py, err as int, fuel)),
                forall|a: int, b: int| self.in_bounds(a, b) ==> #[trigger] self.pixel(a, b) == (
                    if drawn.contains((a, b)) { color } else { old_self.pixel(a, b) }),
            ensures
                self.same_shape(&old_self),
                forall|a: int, b: int| self.in_bounds(a, b) ==> #[trigger] self.pixel(a, b) == (
                    if all.contains((a, b)) { color } else { old_self.pixel(a, b) }),
            decreases fuel,
        {
            let ghost before = *self;
            self.set_pixel_safe(x, y, color);
            let ghost p = (x as int, y as int);
            proof {
                drawn = drawn.insert(p);
            }
            if x == x1 && y == y1 {
                proof {
                    assert(px == dx && py == dy);
                    assert(all =~= drawn);
                }
                break;
            }
            proof {
                assert(!(px == dx && py == dy));
                assert(fuel > 0);
                lemma_bres_step(dx as int, dy as int, px, py);
            }
            let pg: i64 = 2 * err;
            let ghost e0 = err as int;
            if pg >= -dy {
                err = err - dy;
                x = x + am;
                proof { px = px + 1; }
            }
            if pg <= dx {
                err = err + dx;
                y = y + ak;
                proof { py = py + 1; }
            }
            proof {
                let rest = bres_points(x0 as int, y0 as int, x1 as int, y1 as int, px, py, err as int, (fuel - 1) as nat);
                fuel = (fuel - 1) as nat;
                assert(all =~= drawn.union(rest));
            }
        }
    }

    /// Draws the outline of the rectangle at (`x`, `y`) of `w` x `h` pixels
    /// (each taken as a signed 32-bit value): its top, bottom, left and right
    /// edges as lines.
    pub fn draw_rect(&mut self, x: u32, y: u32, w: u32, h: u32, color: u32)
        requires
            old(self).wf(),
            i32::MIN + 1 <= (x as i32) + (w as i32) <= i32::MAX,
            i32::MIN + 1 <= (y as i32) + (h as i32) <= i32::MAX,
            -i32::MAX <= (w as i32) - 1,
            -i32::MAX <= (h as i32) - 1,
        ensures
            final(self).same_shape(old(self)),
            forall|a: int, b: int| final(self).in_bounds(a, b) ==> #[trigger] final(self).pixel(a, b) == (
                if rect_outline((x as i32) as int, (y as i32) as int, (w as i32) as int, (h as i32) as int).contains((a, b)) { color }
                else { old(self).pixel(a, b) }),
    {
        let ghost old_self = *old(self);
        let (xi, yi, wi, hi) = (x as i32, y as i32, w as i32, h as i32);
        let r = xi + wi - 1;
        let b = yi + hi - 1;
        self.draw_line(xi, yi, r, yi, color);
        self.draw_line(xi, b, r, b, color);
        self.draw_line(xi, yi, xi, b, color);
        self.draw_line(r, yi, r, b, color);
    }

    /// Same as `draw_rect`; the corner radius is not drawn.
    pub fn draw_rounded_rect(&mut self, x: u32, y: u32, w: u32, h: u32, _radius: u32, color: u32)
        requires
            old(self).wf(),
            i32::MIN + 1 <= (x as i32) + (w as i32) <= i32::MAX,
            i32::MIN + 1 <= (y as i32) + (h as i32) <= i32::MAX,
            -i32::MAX <= (w as i32) - 1,
            -i32::MAX <= (h as i32) - 1,
        ensures
            final(self).same_shape(old(self)),
            forall|a: int, b: int| final(self).in_bounds(a, b) ==> #[trigger] final(self).pixel(a, b) == (
                if rect_outline((x as i32) as int, (y as i32) as int, (w as i32) as int, (h as i32) as int).contains((a, b)) { color }
                else { old(self).pixel(a, b) }),
    {
        self.draw_rect(x, y, w, h, color);
    }
}

/// Points of a rectangle's outline as `draw_rect` draws it.
pub open spec fn rect_outline(x: int, y: int, w: int, h: int) -> Set<(int, int)> {
    let r = x + w - 1;
    let b = y + h - 1;
    line_points(x, y, r, y).union(line_points(x, b, r, b)).union(line_points(x, y, x, b)).union(line_points(r, y, r, b))
}



/// A surface placed on the screen by the compositor.
pub struct Layer {
    pub surface: GpuSurface,
    pub x: i32,
    pub y: i32,
    pub z_order: i32,
    pub visible: bool,
    pub opacity: u8,
}

/// Stacks layers by z-order onto an output surface.
pub struct Compositor {
    layers: Vec<Layer>,
    output: GpuSurface,
    background_color: u32,
}

/// Whether layers are in non-decreasing z-order.
pub open spec fn z_sorted(layers: Seq<Layer>) -> bool {
    forall|i: int, j: int| 0 <= i <= j < layers.len() ==> layers[i].z_order <= layers[j].z_order
}

/// Whether a layer can be drawn onto an output of `w` x `h` pixels.
pub open spec fn layer_fits(l: Layer) -> bool {
    &&& l.surface.wf()
    &&& l.surface.width <= i32::MAX
    &&& l.surface.height <= i32::MAX
    &&& l.x + l.surface.width <= i32::MAX
    &&& l.y + l.surface.height <= i32::MAX
}

/// Colour of output pixel (`a`, `b`) once the first `n` layers are drawn
/// over the background colour `bg`.
pub open spec fn composed_pixel(layers: Seq<Layer>, n: int, bg: u32, a: int, b: int) -> u32
    decreases n,
{
    if n <= 0 {
        bg
    } else {
        let l = layers[n - 1];
        if l.visible && GpuSurface::blit_source_drawn(&l.surface, a - l.x, b - l.y) {
            l.surface.pixel(a - l.x, b - l.y)
        } else {
            composed_pixel(layers, n - 1, bg, a, b)
        }
    }
}

/// Position at which a layer of z-order `z` is inserted: after every layer
/// whose z-order is not above `z`.
pub open spec fn insert_position(layers: Seq<Layer>, z: i32) -> int
    decreases layers.len(),
{
    if layers.len() == 0 {
        0
    } else if layers.last().z_order <= z {
        layers.len() as int
    } else {
        insert_position(layers.drop_last(), z)
    }
}

proof fn lemma_insert_position(layers: Seq<Layer>, z: i32)
    requires
        z_sorted(layers),
    ensures
        0 <= insert_position(layers, z) <= layers.len(),
        forall|i: int| 0 <= i < insert_position(layers, z) ==> layers[i].z_order <= z,
        forall|i: int| insert_position(layers, z) <= i < layers.len() ==> layers[i].z_order > z,
    decreases layers.len(),
{
    if layers.len() > 0 && layers.last().z_order > z {
        let d = layers.drop_last();
        assert(z_sorted(d)) by {
            assert forall|i: int, j: int| 0 <= i <= j < d.len() implies d[i].z_order <= d[j].z_order by {
                assert(d[i] == layers[i] && d[j] == layers[j]);
            }
        }
        lemma_insert_position(d, z);
        assert forall|i: int| insert_position(layers, z) <= i < layers.len() implies layers[i].z_order > z by {
            if i < layers.len() - 1 {
                assert(d[i] == layers[i]);
            }
        }
        assert forall|i: int| 0 <= i < insert_position(layers, z) implies layers[i].z_order <= z by {
            assert(d[i] == layers[i]);
        }
    } else if layers.len() > 0 {
        assert forall|i: int| 0 <= i < insert_position(layers, z) implies layers[i].z_order <= z by {
            assert(layers[i].z_order <= layers[layers.len() - 1].z_order);
        }
    }
}

impl Compositor {
    pub closed spec fn spec_layers(&self) -> Seq<Layer> {
        self.layers@
    }

    pub closed spec fn spec_output(&self) -> GpuSurface {
        self.output
    }

    pub closed spec fn spec_background(&self) -> u32 {
        self.background_color
    }

    /// Layers sorted by z-order over well-formed surfaces, and a well-formed output
    /// whose size fits in `i32`.
    pub closed spec fn wf(&self) -> bool {
        &&& z_sorted(self.layers@)
        &&& forall|i: int| 0 <= i < self.layers@.len() ==> (#[trigger] self.layers@[i]).surface.wf()
        &&& self.output.wf()
        &&& self.output.width <= i32::MAX
        &&& self.output.height <= i32::MAX
    }

    /// A compositor with no layer and a dark grey background.
    pub fn new(width: u32, height: u32) -> (c: Self)
        requires
            width * height <= u32::MAX,
            width <= i32::MAX,
            height <= i32::MAX,
        ensures
            c.wf(),
            c.spec_layers().len() == 0,
            c.spec_output().width == width,
            c.spec_output().height == height,
            c.spec_background() == 0xFF1A1A1A,
    {
        Self { layers: Vec::new(), output: GpuSurface::new(width, height), background_color: 0xFF1A1A1A }
    }

    /// Adds a visible, opaque layer and keeps the layers sorted by z-order
    /// (a new layer goes after those of equal z-order). Returns the number of
    /// layers before the addition.
    pub fn add_layer(&mut self, surface: GpuSurface, x: i32, y: i32, z_order: i32) -> (idx: usize)
        requires
            old(self).wf(),
            old(self).spec_layers().len() < usize::MAX,
            surface.wf(),
        ensures
            final(self).wf(),
            idx == old(self).spec_layers().len(),
            final(self).spec_output() == old(self).spec_output(),
            final(self).spec_background() == old(self).spec_background(),
            ({
                let k = insert_position(old(self).spec_layers(), z_order);
                final(self).spec_layers() == old(self).spec_layers().insert(
                    k, Layer { surface, x, y, z_order, visible: true, opacity: 255 })
            }),
    {
        let idx = self.layers.len();
        let ghost old_layers = self.layers@;
        proof { lemma_insert_position(old_layers, z_order); }
        let mut k: usize = self.layers.len();
        while k > 0 && self.layers[k - 1].z_order > z_order
            invariant
                k <= self.layers@.len(),
                self.layers@ == old_layers,
                z_sorted(old_layers),
                insert_position(old_layers, z_order) <= k,
                forall|i: int| k <= i < old_layers.len() ==> old_layers[i].z_order > z_order,
                0 <= insert_position(old_layers, z_order) <= old_layers.len(),
                forall|i: int| 0 <= i < insert_position(old_layers, z_order) ==> old_layers[i].z_order <= z_order,
            decreases k,
        {
            k = k - 1;
        }
        proof {
            if (k as int) > insert_position(old_layers, z_order) {
                assert(old_layers[k - 1].z_order <= z_order);
            }
        }
        let layer = Layer { surface, x, y, z_order, visible: true, opacity: 255 };
        self.layers.insert(k, layer);
        proof {
            let n = self.layers@;
            assert forall|i: int, j: int| 0 <= i <= j < n.len() implies n[i].z_order <= n[j].z_order by {
                if i < k && j > k {
                    assert(n[j] == old_layers[j - 1]);
                } else if i > k {
                    assert(n[i] == old_layers[i - 1]);
                    assert(n[j] == old_layers[j - 1]);
                }
            }
            assert forall|i: int| 0 <= i < n.len() implies (#[trigger] n[i]).surface.wf() by {
                if i < k {
                    assert(n[i] == old_layers[i]);
                } else if i > k {
                    assert(n[i] == old_layers[i - 1]);
                }
            }
        }
        idx
    }

    /// Removes the layer at `index`; does nothing for an index out of range.
    pub fn oez(&mut self, index: usize)
        requires
            old(self).wf(),
        ensures
            final(self).wf(),
            final(self).spec_output() == old(self).spec_output(),
            final(self).spec_background() == old(self).spec_background(),
            final(self).spec_layers() == (if index < old(self).spec_layers().len() {
                old(self).spec_layers().remove(index as int)
            } else {
                old(self).spec_layers()
            }),
    {
        if index < self.layers.len() {
            let ghost old_layers = self.layers@;
            let _ = self.layers.remove(index);
            proof {
                let n = self.layers@;
                assert forall|i: int, j: int| 0 <= i <= j < n.len() implies n[i].z_order <= n[j].z_order by {
                    let oi = if i < index { i } else { i + 1 };
                    let oj = if j < index { j } else { j + 1 };
                    assert(n[i] == old_layers[oi]);
                    assert(n[j] == old_layers[oj]);
                }
                assert forall|i: int| 0 <= i < n.len() implies (#[trigger] n[i]).surface.wf() by {
                    let oi = if i < index { i } else { i + 1 };
                    assert(n[i] == old_layers[oi]);
                }
            }
        }
    }

    /// Redraws the output: the background colour, then every visible layer in
    /// z-order.
    pub fn compose(&mut self)
        requires
            old(self).wf(),
            forall|i: int| 0 <= i < old(self).spec_layers().len() && (#[trigger] old(self).spec_layers()[i]).visible
                ==> layer_fits(old(self).spec_layers()[i]),
        ensures
            final(self).wf(),
            final(self).spec_layers() == old(self).spec_layers(),
            final(self).spec_background() == old(self).spec_background(),
            final(self).spec_output().same_shape(&old(self).spec_output()),
            forall|a: int, b: int| final(self).spec_output().in_bounds(a, b) ==> #[trigger] final(self).spec_output().pixel(a, b)
                == composed_pixel(old(self).spec_layers(), old(self).spec_layers().len() as int, old(self).spec_background(), a, b),
    {
        let ghost old_out = self.output;
        let ghost old_layers = self.layers@;
        let bg = self.background_color;
        assert(forall|j: int| 0 <= j < old_layers.len() && (#[trigger] old_layers[j]).visible ==> layer_fits(old_layers[j])) by {
            assert(old_layers == old(self).spec_layers());
        }
        self.output.clear(bg);
        let mut i: usize = 0;
        while i < self.layers.len()
            invariant
                i <= self.layers@.len(),
                self.layers@ == old_layers,
                z_sorted(self.layers@),
                forall|j: int| 0 <= j < self.layers@.len() ==> (#[trigger] self.layers@[j]).surface.wf(),
                forall|j: int| 0 <= j < old_layers.len() && (#[trigger] old_layers[j]).visible ==> layer_fits(old_layers[j]),
                self.output.same_shape(&old_out),
                self.output.width <= i32::MAX,
                self.output.height <= i32::MAX,
                bg == self.background_color,
                forall|a: int, b: int| self.output.in_bounds(a, b) ==> #[trigger] self.output.pixel(a, b)
                    == composed_pixel(self.layers@, i as int, bg, a, b),
            decreases self.layers@.len() - i,
        {
            let ghost l = self.layers@[i as int];
            if self.layers[i].visible {
                assert(old_layers[i as int].visible);
                assert(layer_fits(l));
                let ghost before = self.output;
                self.output.blit(&self.layers[i].surface, self.layers[i].x, self.layers[i].y);
            }
            i = i + 1;
        }
    }

    /// The layer at `index`, if there is one.
    pub fn get_layer(&self, index: usize) -> (r: Option<&Layer>)
        ensures
            r matches Some(l) ==> index < self.spec_layers().len() && *l == self.spec_layers()[index as int],
            r is None <==> index >= self.spec_layers().len(),
    {
        if index < self.layers.len() {
            Some(&self.layers[index])
        } else {
            None
        }
    }

    /// The layer at `index` for changing in place, if there is one.  A
    /// change of its z-order is not re-sorted: the layers are ordered again
    /// (and `wf` holds again) only while every z-order stays in order.
    pub fn get_layer_mut(&mut self, index: usize) -> (r: Option<&mut Layer>)
        ensures
            r is None <==> index >= old(self).spec_layers().len(),
            r is None ==> *final(self) == *old(self),
            r matches Some(l) ==> *l == old(self).spec_layers()[index as int] && final(self).spec_layers()
                == old(self).spec_layers().update(index as int, *final(l)) && final(self).spec_output()
                == old(self).spec_output() && final(self).spec_background() == old(self).spec_background(),
            r matches Some(l) ==> (old(self).wf() ==> (final(self).wf() <==> z_sorted(final(self).spec_layers())
                && (*final(l)).surface.wf())),
    {
        if index < self.layers.len() {
            Some(&mut self.layers[index])
        } else {
            None
        }
    }

    /// Sets the background colour.
    pub fn ooo(&mut self, color: u32)
        requires
            old(self).wf(),
        ensures
            final(self).wf(),
            final(self).spec_background() == color,
            final(self).spec_layers() == old(self).spec_layers(),
            final(self).spec_output() == old(self).spec_output(),
    {
        self.background_color = color;
    }

    /// The output surface.
    pub fn output(&self) -> (o: &GpuSurface)
        ensures
            *o == self.spec_output(),
    {
        &self.output
    }
}


/// Compositor law: a well-formed compositor, as `new` builds it and
/// `add_layer`, `oez`, `compose` and `ooo` keep it, has its layers in
/// non-decreasing z-order.
pub proof fn law_compositor_layers_sorted(c: &Compositor)
    requires
        c.wf(),
    ensures
        z_sorted(c.spec_layers()),
{
}

/// Insertion law: a layer of z-order `z` added to layers in z-order goes
/// after every layer whose z-order is not above `z` and before the others
/// (a stable insert); the layers stay in z-order, one more of them; and it
/// goes last exactly when no layer has a higher z-order.
pub proof fn law_add_layer_stable(layers: Seq<Layer>, l: Layer)
    requires
        z_sorted(layers),
    ensures
        ({
            let k = insert_position(layers, l.z_order);
            let n = layers.insert(k, l);
            &&& 0 <= k <= layers.len()
            &&& n.len() == layers.len() + 1
            &&& n[k] == l
            &&& z_sorted(n)
            &&& forall|j: int| 0 <= j < k ==> n[j] == layers[j] && n[j].z_order <= l.z_order
            &&& forall|j: int| k < j < n.len() ==> n[j] == layers[j - 1] && n[j].z_order > l.z_order
            &&& (k == layers.len() <==> forall|j: int| 0 <= j < layers.len() ==> layers[j].z_order <= l.z_order)
        }),
{
    lemma_insert_position(layers, l.z_order);
    let k = insert_position(layers, l.z_order);
    let n = layers.insert(k, l);
    assert forall|i: int, j: int| 0 <= i <= j < n.len() implies n[i].z_order <= n[j].z_order by {
        if i < k && j > k {
            assert(n[j] == layers[j - 1]);
        } else if i > k {
            assert(n[i] == layers[i - 1]);
            assert(n[j] == layers[j - 1]);
        }
    }
    if k < layers.len() {
        assert(layers[k].z_order > l.z_order);
    }
}

/// VirtIO GPU PCI vendor id.
pub const DEO_: u16 = 0x1AF4;
/// VirtIO GPU PCI device id.
pub const DEN_: u16 = 0x1050;

/// VirtIO PCI capability types: common, notify, ISR and device
/// configuration.
pub const CAP_COMMON: u8 = 1;
pub const CAP_NOTIFY: u8 = 2;
pub const CAP_ISR: u8 = 3;
pub const CAP_DEVICE: u8 = 4;

/// Index of the last capability of type `t` among the first `n`, or -1.
pub open spec fn last_of_type(types: Seq<u8>, t: u8, n: int) -> int
    decreases n,
{
    if n <= 0 { -1 } else if types[n - 1] == t { n - 1 } else { last_of_type(types, t, n - 1) }
}

pub open spec fn index_opt(i: int) -> Option<usize> {
    if i < 0 { None } else { Some(i as usize) }
}

/// Which of a device's VirtIO capabilities the driver maps, and which it
/// keeps of each kind (the last one listed).
#[derive(Debug, Clone, PartialEq, Eq)]
pub struct CapPlan {
    /// Capabilities to map, in list order: those of the four known types.
    pub map: Vec<usize>,
    pub common: Option<usize>,
    pub notify: Option<usize>,
    pub isr: Option<usize>,
    pub device: Option<usize>,
}

/// The capabilities of the listed `types` that get mapped, in order: those
/// of the four known types.
pub open spec fn mapped_caps(types: Seq<u8>, n: int) -> Seq<usize>
    decreases n,
{
    if n <= 0 {
        Seq::empty()
    } else if 1 <= types[n - 1] <= 4 {
        mapped_caps(types, n - 1).push((n - 1) as usize)
    } else {
        mapped_caps(types, n - 1)
    }
}

/// The mapping plan for a device whose capabilities have `types`, in list
/// order; refused when it lists none.
pub fn cap_plan(types: &Vec<u8>) -> (r: Result<CapPlan, &'static str>)
    ensures
        types@.len() == 0 <==> r == Err::<CapPlan, &'static str>("No VirtIO capabilities found"),
        r matches Ok(p) ==> {
            &&& p.map@ == mapped_caps(types@, types@.len() as int)
            &&& p.common == index_opt(last_of_type(types@, CAP_COMMON, types@.len() as int))
            &&& p.notify == index_opt(last_of_type(types@, CAP_NOTIFY, types@.len() as int))
            &&& p.isr == index_opt(last_of_type(types@, CAP_ISR, types@.len() as int))
            &&& p.device == index_opt(last_of_type(types@, CAP_DEVICE, types@.len() as int))
        },
{
    if types.len() == 0 {
        return Err("No VirtIO capabilities found");
    }
    let mut p = CapPlan { map: Vec::new(), common: None, notify: None, isr: None, device: None };
    let mut i: usize = 0;
    while i < types.len()
        invariant
            i <= types@.len(),
            p.map@ == mapped_caps(types@, i as int),
            p.common == index_opt(last_of_type(types@, CAP_COMMON, i as int)),
            p.notify == index_opt(last_of_type(types@, CAP_NOTIFY, i as int)),
            p.isr == index_opt(last_of_type(types@, CAP_ISR, i as int)),
            p.device == index_opt(last_of_type(types@, CAP_DEVICE, i as int)),
        decreases types@.len() - i,
    {
        let t = types[i];
        if 1 <= t && t <= 4 {
            p.map.push(i);
        }
        if t == CAP_COMMON {
            p.common = Some(i);
        } else if t == CAP_NOTIFY {
            p.notify = Some(i);
        } else if t == CAP_ISR {
            p.isr = Some(i);
        } else if t == CAP_DEVICE {
            p.device = Some(i);
        }
        i = i + 1;
    }
    Ok(p)
}

impl CapPlan {
    /// After mapping: the common, notify and device configurations must
    /// all be there, checked in that order.
    pub fn required(&self) -> (r: Result<(), &'static str>)
        ensures
            r == (if self.common is None {
                Err("Missing COMMON_CFG")
            } else if self.notify is None {
                Err("Missing NOTIFY_CFG")
            } else if self.device is None {
                Err("Missing DEVICE_CFG")
            } else {
                Ok(())
            }),
    {
        if self.common.is_none() {
            Err("Missing COMMON_CFG")
        } else if self.notify.is_none() {
            Err("Missing NOTIFY_CFG")
        } else if self.device.is_none() {
            Err("Missing DEVICE_CFG")
        } else {
            Ok(())
        }
    }
}

/// Feature bits: 3D (VIRGL), EDID, and VERSION_1.
pub const FEATURE_VIRGL: u64 = 1;
pub const FEATURE_EDID: u64 = 2;
pub const FEATURE_VERSION_1: u64 = 0x1_0000_0000;

/// Feature negotiation from the device's feature bits: whether the device
/// offers 3D, and the features the driver takes (VERSION_1, plus EDID when
/// offered).
pub fn negotiate_features(device_features: u64) -> (r: (bool, u64))
    ensures
        r.0 == (device_features % 2 == 1),
        r.1 == (if (device_features / 2) % 2 == 1 { FEATURE_VERSION_1 + FEATURE_EDID } else { FEATURE_VERSION_1 as int }),
{
    let has_3d = device_features % 2 == 1;
    let take = if (device_features / 2) % 2 == 1 { FEATURE_VERSION_1 + FEATURE_EDID } else { FEATURE_VERSION_1 };
    (has_3d, take)
}

/// Device status bits the driver sets: ACKNOWLEDGE, DRIVER, DRIVER_OK,
/// FEATURES_OK, FAILED.
pub const STATUS_ACKNOWLEDGE: u8 = 1;
pub const STATUS_DRIVER: u8 = 2;
pub const STATUS_DRIVER_OK: u8 = 4;
pub const STATUS_FEATURES_OK: u8 = 8;
pub const STATUS_FAILED: u8 = 128;

/// The check after FEATURES_OK was written: the device kept the bit, or
/// the driver marks it FAILED and gives up.
pub fn features_check(status: u8) -> (r: Result<(), (u8, &'static str)>)
    ensures
        r == (if (status / 8) % 2 == 1 { Ok(()) } else { Err((STATUS_FAILED, "Device rejected features")) }),
{
    if (status / 8) % 2 == 1 {
        Ok(())
    } else {
        Err((STATUS_FAILED, "Device rejected features"))
    }
}

/// State of the VirtIO GPU display: its mode, its scanout resources and
/// which of the two buffers is on screen.
pub struct VirtioGpu {
    pub display_width: u32,
    pub display_height: u32,
    pub num_scanouts: u32,
    pub next_resource_id: u32,
    pub scanout_resource_id: u32,
    pub initialized: bool,
    pub has_3d: bool,
    pub back_resource_id: u32,
    pub double_buffer_enabled: bool,
    /// Whether resource A (the first scanout resource) is on screen.
    pub front_is_a: bool,
}

impl VirtioGpu {
    /// A device that is not initialized yet.
    pub fn new() -> (g: Self)
        ensures
            g.display_width == 0 && g.display_height == 0,
            g.num_scanouts == 0,
            g.next_resource_id == 1,
            g.scanout_resource_id == 0,
            !g.initialized,
            !g.has_3d,
            g.back_resource_id == 0,
            !g.double_buffer_enabled,
            g.front_is_a,
    {
        Self {
            display_width: 0,
            display_height: 0,
            num_scanouts: 0,
            next_resource_id: 1,
            scanout_resource_id: 0,
            initialized: false,
            has_3d: false,
            back_resource_id: 0,
            double_buffer_enabled: false,
            front_is_a: true,
        }
    }

    /// Resource to put on screen at the next buffer swap: the one that is
    /// not on screen; `None` without double buffering.
    pub fn swap_target(&self) -> (r: Option<u32>)
        ensures
            !self.double_buffer_enabled ==> r is None,
            self.double_buffer_enabled ==> r == Some(
                if self.front_is_a { self.back_resource_id } else { self.scanout_resource_id }),
    {
        if !self.double_buffer_enabled {
            None
        } else if self.front_is_a {
            Some(self.back_resource_id)
        } else {
            Some(self.scanout_resource_id)
        }
    }

    /// Completes a buffer swap, given the outcome of setting the scanout to
    /// `swap_target()`: on success the other buffer is now in front.
    pub fn swap_gpu_buffers(&mut self, set_scanout: Result<(), &'static str>) -> (r: Result<(), &'static str>)
        ensures
            !old(self).double_buffer_enabled ==> r is Ok && *final(self) == *old(self),
            old(self).double_buffer_enabled ==> r == set_scanout,
            old(self).double_buffer_enabled && set_scanout is Ok ==> *final(self) == (VirtioGpu { front_is_a: !old(self).front_is_a, ..*old(self) }),
            old(self).double_buffer_enabled && set_scanout is Err ==> *final(self) == *old(self),
    {
        if !self.double_buffer_enabled {
            return Ok(());
        }
        if set_scanout.is_ok() {
            self.front_is_a = !self.front_is_a;
        }
        set_scanout
    }

    /// Display size in pixels.
    pub fn kv(&self) -> (r: (u32, u32))
        ensures
            r == (self.display_width, self.display_height),
    {
        (self.display_width, self.display_height)
    }

    pub fn is_initialized(&self) -> (r: bool)
        ensures
            r == self.initialized,
    {
        self.initialized
    }

    /// Whether the device offers 3D (virgl).
    pub fn qkj(&self) -> (r: bool)
        ensures
            r == self.has_3d,
    {
        self.has_3d
    }

    /// Takes the next free resource id.
    pub fn alloc_resource_id(&mut self) -> (id: u32)
        requires
            old(self).next_resource_id < u32::MAX,
        ensures
            id == old(self).next_resource_id,
            *final(self) == (VirtioGpu { next_resource_id: (old(self).next_resource_id + 1) as u32, ..*old(self) }),
    {
        let id = self.next_resource_id;
        self.next_resource_id = id + 1;
        id
    }
}

/// Two successful buffer swaps put the first buffer back in front.
pub proof fn law_double_swap_restores_front(g0: VirtioGpu, g1: VirtioGpu, g2: VirtioGpu)
    requires
        g0.double_buffer_enabled,
        g1 == (VirtioGpu { front_is_a: !g0.front_is_a, ..g0 }),
        g2 == (VirtioGpu { front_is_a: !g1.front_is_a, ..g1 }),
    ensures
        g2 == g0,
{
}

/// A new drawing surface.
pub fn create_surface(width: u32, height: u32) -> (s: GpuSurface)
    requires
        width * height <= u32::MAX,
    ensures
        s.wf(),
        s.width == width,
        s.height == height,
        forall|x: int, y: int| s.in_bounds(x, y) ==> #[trigger] s.pixel(x, y) == 0,
{
    GpuSurface::new(width, height)
}

/// Whether a PCI device is a VirtIO GPU.
pub fn is_virtio_gpu(vendor_id: u16, device_id: u16) -> (r: bool)
    ensures
        r == (vendor_id == DEO_ && device_id == DEN_),
{
    vendor_id == DEO_ && device_id == DEN_
}

/// Control-queue command and response types.
#[derive(Clone, Copy, Debug, PartialEq, Eq, Structural)]
pub enum GpuCtrlType {
    CmdGetDisplayInfo,
    CmdResourceCreate2d,
    CmdResourceUnref,
    CmdSetScanout,
    CmdResourceFlush,
    CmdTransferToHost2d,
    CmdResourceAttachBacking,
    CmdResourceDetachBacking,
    CmdGetCapsetInfo,
    CmdGetCapset,
    CmdGetEdid,
    CmdCtxCreate,
    CmdCtxDestroy,
    CmdCtxAttachResource,
    CmdCtxDetachResource,
    CmdResourceCreate3d,
    CmdTransferToHost3d,
    CmdTransferFromHost3d,
    CmdSubmit3d,
    CmdUpdateCursor,
    CmdMoveCursor,
    RespOkNodata,
    RespOkDisplayInfo,
    RespOkCapsetInfo,
    RespOkCapset,
    RespOkEdid,
    RespErrUnspec,
    RespErrOutOfMemory,
    RespErrInvalidScanoutId,
    RespErrInvalidResourceId,
    RespErrInvalidContextId,
    RespErrInvalidParameter,
}

pub open spec fn ctrl_code(t: GpuCtrlType) -> u32 {
    match t {
        GpuCtrlType::CmdGetDisplayInfo => 0x0100,
        GpuCtrlType::CmdResourceCreate2d => 0x0101,
        GpuCtrlType::CmdResourceUnref => 0x0102,
        GpuCtrlType::CmdSetScanout => 0x0103,
        GpuCtrlType::CmdResourceFlush => 0x0104,
        GpuCtrlType::CmdTransferToHost2d => 0x0105,
        GpuCtrlType::CmdResourceAttachBacking => 0x0106,
        GpuCtrlType::CmdResourceDetachBacking => 0x0107,
        GpuCtrlType::CmdGetCapsetInfo => 0x0108,
        GpuCtrlType::CmdGetCapset => 0x0109,
        GpuCtrlType::CmdGetEdid => 0x010a,
        GpuCtrlType::CmdCtxCreate => 0x0200,
        GpuCtrlType::CmdCtxDestroy => 0x0201,
        GpuCtrlType::CmdCtxAttachResource => 0x0202,
        GpuCtrlType::CmdCtxDetachResource => 0x0203,
        GpuCtrlType::CmdResourceCreate3d => 0x0204,
        GpuCtrlType::CmdTransferToHost3d => 0x0205,
        GpuCtrlType::CmdTransferFromHost3d => 0x0206,
        GpuCtrlType::CmdSubmit3d => 0x0207,
        GpuCtrlType::CmdUpdateCursor => 0x0300,
        GpuCtrlType::CmdMoveCursor => 0x0301,
        GpuCtrlType::RespOkNodata => 0x1100,
        GpuCtrlType::RespOkDisplayInfo => 0x1101,
        GpuCtrlType::RespOkCapsetInfo => 0x1102,
        GpuCtrlType::RespOkCapset => 0x1103,
        GpuCtrlType::RespOkEdid => 0x1104,
        GpuCtrlType::RespErrUnspec => 0x1200,
        GpuCtrlType::RespErrOutOfMemory => 0x1201,
        GpuCtrlType::RespErrInvalidScanoutId => 0x1202,
        GpuCtrlType::RespErrInvalidResourceId => 0x1203,
        GpuCtrlType::RespErrInvalidContextId => 0x1204,
        GpuCtrlType::RespErrInvalidParameter => 0x1205,
    }
}

impl GpuCtrlType {
    /// The type's code on the wire.
    pub fn code(self) -> (c: u32)
        ensures
            c == ctrl_code(self),
    {
        match self {
            GpuCtrlType::CmdGetDisplayInfo => 0x0100,
            GpuCtrlType::CmdResourceCreate2d => 0x0101,
            GpuCtrlType::CmdResourceUnref => 0x0102,
            GpuCtrlType::CmdSetScanout => 0x0103,
            GpuCtrlType::CmdResourceFlush => 0x0104,
            GpuCtrlType::CmdTransferToHost2d => 0x0105,
            GpuCtrlType::CmdResourceAttachBacking => 0x0106,
            GpuCtrlType::CmdResourceDetachBacking => 0x0107,
            GpuCtrlType::CmdGetCapsetInfo => 0x0108,
            GpuCtrlType::CmdGetCapset => 0x0109,
            GpuCtrlType::CmdGetEdid => 0x010a,
            GpuCtrlType::CmdCtxCreate => 0x0200,
            GpuCtrlType::CmdCtxDestroy => 0x0201,
            GpuCtrlType::CmdCtxAttachResource => 0x0202,
            GpuCtrlType::CmdCtxDetachResource => 0x0203,
            GpuCtrlType::CmdResourceCreate3d => 0x0204,
            GpuCtrlType::CmdTransferToHost3d => 0x0205,
            GpuCtrlType::CmdTransferFromHost3d => 0x0206,
            GpuCtrlType::CmdSubmit3d => 0x0207,
            GpuCtrlType::CmdUpdateCursor => 0x0300,
            GpuCtrlType::CmdMoveCursor => 0x0301,
            GpuCtrlType::RespOkNodata => 0x1100,
            GpuCtrlType::RespOkDisplayInfo => 0x1101,
            GpuCtrlType::RespOkCapsetInfo => 0x1102,
            GpuCtrlType::RespOkCapset => 0x1103,
            GpuCtrlType::RespOkEdid => 0x1104,
            GpuCtrlType::RespErrUnspec => 0x1200,
            GpuCtrlType::RespErrOutOfMemory => 0x1201,
            GpuCtrlType::RespErrInvalidScanoutId => 0x1202,
            GpuCtrlType::RespErrInvalidResourceId => 0x1203,
            GpuCtrlType::RespErrInvalidContextId => 0x1204,
            GpuCtrlType::RespErrInvalidParameter => 0x1205,
        }
    }
}

/// Pixel formats of 2D resources.
#[derive(Clone, Copy, Debug, PartialEq, Eq, Structural)]
pub enum GpuFormat {
    B8G8R8A8Unorm,
    B8G8R8X8Unorm,
    A8R8G8B8Unorm,
    X8R8G8B8Unorm,
    R8G8B8A8Unorm,
    X8B8G8R8Unorm,
    A8B8G8R8Unorm,
    R8G8B8X8Unorm,
}

pub open spec fn format_code(f: GpuFormat) -> u32 {
    match f {
        GpuFormat::B8G8R8A8Unorm => 1,
        GpuFormat::B8G8R8X8Unorm => 2,
        GpuFormat::A8R8G8B8Unorm => 3,
        GpuFormat::X8R8G8B8Unorm => 4,
        GpuFormat::R8G8B8A8Unorm => 67,
        GpuFormat::X8B8G8R8Unorm => 68,
        GpuFormat::A8B8G8R8Unorm => 121,
        GpuFormat::R8G8B8X8Unorm => 134,
    }
}

impl GpuFormat {
    /// The format's code on the wire.
    pub fn code(self) -> (c: u32)
        ensures
            c == format_code(self),
    {
        match self {
            GpuFormat::B8G8R8A8Unorm => 1,
            GpuFormat::B8G8R8X8Unorm => 2,
            GpuFormat::A8R8G8B8Unorm => 3,
            GpuFormat::X8R8G8B8Unorm => 4,
            GpuFormat::R8G8B8A8Unorm => 67,
            GpuFormat::X8B8G8R8Unorm => 68,
            GpuFormat::A8B8G8R8Unorm => 121,
            GpuFormat::R8G8B8X8Unorm => 134,
        }
    }
}

/// Control header of every command and response.
#[derive(Clone, Copy, Debug)]
pub struct Ac {
    pub ctrl_type: u32,
    pub flags: u32,
    pub fence_id: u64,
    pub ctx_id: u32,
    pub eys: u8,
    pub padding: [u8; 3],
}

/// Little-endian bytes of a 32-bit value.
pub open spec fn le32_bytes(v: u32) -> Seq<u8> {
    seq![(v % 0x100) as u8, ((v / 0x100) % 0x100) as u8, ((v / 0x1_0000) % 0x100) as u8, (v / 0x100_0000) as u8]
}

/// Little-endian bytes of a 64-bit value.
pub open spec fn le64_bytes(v: u64) -> Seq<u8> {
    le32_bytes((v % 0x1_0000_0000) as u32) + le32_bytes((v / 0x1_0000_0000) as u32)
}

pub fn push_le32(out: &mut Vec<u8>, v: u32)
    ensures
        final(out)@ == old(out)@ + le32_bytes(v),
{
    out.push((v % 0x100) as u8);
    out.push(((v / 0x100) % 0x100) as u8);
    out.push(((v / 0x1_0000) % 0x100) as u8);
    out.push((v / 0x100_0000) as u8);
    assert(final(out)@ =~= old(out)@ + le32_bytes(v));
}

pub fn push_le64(out: &mut Vec<u8>, v: u64)
    ensures
        final(out)@ == old(out)@ + le64_bytes(v),
{
    push_le32(out, (v % 0x1_0000_0000) as u32);
    push_le32(out, (v / 0x1_0000_0000) as u32);
    assert(final(out)@ =~= old(out)@ + le64_bytes(v));
}

impl Ac {
    /// A header of the given type, everything else zero.
    pub fn of_type(t: GpuCtrlType, ctx_id: u32) -> (h: Ac)
        ensures
            h.ctrl_type == ctrl_code(t),
            h.flags == 0 && h.fence_id == 0 && h.eys == 0,
            h.ctx_id == ctx_id,
    {
        Ac { ctrl_type: t.code(), flags: 0, fence_id: 0, ctx_id, eys: 0, padding: [0u8; 3] }
    }

    pub open spec fn bytes(&self) -> Seq<u8> {
        le32_bytes(self.ctrl_type) + le32_bytes(self.flags) + le64_bytes(self.fence_id) + le32_bytes(self.ctx_id)
            + seq![self.eys] + self.padding@
    }

    /// The header as laid out on the wire (24 bytes, little endian).
    pub fn encode(&self) -> (b: Vec<u8>)
        ensures
            b@ == self.bytes(),
            b@.len() == 24,
    {
        let mut b: Vec<u8> = Vec::new();
        push_le32(&mut b, self.ctrl_type);
        push_le32(&mut b, self.flags);
        push_le64(&mut b, self.fence_id);
        push_le32(&mut b, self.ctx_id);
        b.push(self.eys);
        b.push(self.padding[0]);
        b.push(self.padding[1]);
        b.push(self.padding[2]);
        assert(b@ =~= self.bytes());
        b
    }
}

/// A rectangle.
#[derive(Clone, Copy, Debug)]
pub struct Eh {
    pub x: u32,
    pub y: u32,
    pub width: u32,
    pub height: u32,
}

/// One display mode of GET_DISPLAY_INFO.
#[derive(Clone, Copy, Debug)]
pub struct Akw {
    pub r: Eh,
    pub enabled: u32,
    pub flags: u32,
}

/// GET_DISPLAY_INFO response.
pub struct Zl {
    pub kp: Ac,
    pub pmodes: [Akw; 16],
}

/// RESOURCE_CREATE_2D command.
#[derive(Clone, Copy, Debug)]
pub struct Zk {
    pub kp: Ac,
    pub zj: u32,
    pub format: u32,
    pub width: u32,
    pub height: u32,
}

/// SET_SCANOUT command.
#[derive(Clone, Copy, Debug)]
pub struct Zm {
    pub kp: Ac,
    pub r: Eh,
    pub scanout_id: u32,
    pub zj: u32,
}

/// RESOURCE_FLUSH command.
#[derive(Clone, Copy, Debug)]
pub struct Jv {
    pub kp: Ac,
    pub r: Eh,
    pub zj: u32,
    pub padding: u32,
}

/// TRANSFER_TO_HOST_2D command.
#[derive(Clone, Copy, Debug)]
pub struct Jw {
    pub kp: Ac,
    pub r: Eh,
    pub offset: u64,
    pub zj: u32,
    pub padding: u32,
}

/// Memory entry of ATTACH_BACKING.
#[derive(Clone, Copy, Debug)]
pub struct Zj {
    pub addr: u64,
    pub length: u32,
    pub padding: u32,
}

/// RESOURCE_ATTACH_BACKING command.
#[derive(Clone, Copy, Debug)]
pub struct Sr {
    pub kp: Ac,
    pub zj: u32,
    pub nr_entries: u32,
}

/// Capability set description.
#[derive(Clone, Copy, Debug)]
pub struct Vt {
    pub capset_id: u32,
    pub capset_max_version: u32,
    pub capset_max_size: u32,
    pub padding: u32,
}

/// CTX_CREATE command.
#[derive(Clone, Copy, Debug)]
pub struct Zh {
    pub kp: Ac,
    pub dbt: u32,
    pub context_init: u32,
    pub debug_name: [u8; 64],
}

/// CTX_DESTROY command.
#[derive(Clone, Copy, Debug)]
pub struct Zi {
    pub kp: Ac,
}

/// RESOURCE_CREATE_3D command.
#[derive(Clone, Copy, Debug)]
pub struct Awy {
    pub kp: Ac,
    pub zj: u32,
    pub target: u32,
    pub format: u32,
    pub fjf: u32,
    pub width: u32,
    pub height: u32,
    pub depth: u32,
    pub array_size: u32,
    pub last_level: u32,
    pub nr_samples: u32,
    pub flags: u32,
    pub padding: u32,
}

/// SUBMIT_3D command header.
#[derive(Clone, Copy, Debug)]
pub struct Zn {
    pub kp: Ac,
    pub size: u32,
    pub padding: u32,
}

/// CTX_ATTACH_RESOURCE command.
#[derive(Clone, Copy, Debug)]
pub struct Awx {
    pub kp: Ac,
    pub zj: u32,
    pub padding: u32,
}

/// The virgl 3D context.
#[derive(Clone, Copy, Debug)]
pub struct Agc {
    pub ctx_id: u32,
    pub active: bool,
    pub capset_version: u32,
}

/// CTX_CREATE for context `ctx_id` named by the first 63 bytes of `name`
/// (the rest of the name field zero).
pub fn qca_command(ctx_id: u32, name: &[u8]) -> (c: Zh)
    ensures
        c.kp.ctrl_type == ctrl_code(GpuCtrlType::CmdCtxCreate),
        c.kp.ctx_id == ctx_id,
        c.dbt == (if name@.len() < 63 { name@.len() } else { 63 }),
        c.context_init == 0,
        forall|i: int| 0 <= i < 64 ==> #[trigger] c.debug_name@[i] == (if i < c.dbt { name@[i] } else { 0u8 }),
{
    let n: usize = if name.len() < 63 { name.len() } else { 63 };
    let mut dn = [0u8; 64];
    let mut i: usize = 0;
    while i < n
        invariant
            i <= n <= 63,
            n <= name@.len(),
            forall|k: int| 0 <= k < 64 ==> #[trigger] dn@[k] == (if k < i { name@[k] } else { 0u8 }),
        decreases n - i,
    {
        dn.set(i, name[i]);
        i = i + 1;
    }
    Zh { kp: Ac::of_type(GpuCtrlType::CmdCtxCreate, ctx_id), dbt: n as u32, context_init: 0, debug_name: dn }
}

/// Largest 3D command stream accepted in one submission.
pub const MAX_SUBMIT_3D: usize = 3800;

/// Header of a SUBMIT_3D of `len` bytes of commands in context `ctx_id`;
/// refused without an active context or when the commands are too large.
pub fn qxt_command(ctx: &Agc, initialized: bool, len: usize) -> (r: Result<Zn, &'static str>)
    ensures
        !ctx.active ==> r == Err::<Zn, &'static str>("No active 3D context"),
        ctx.active && !initialized ==> r == Err::<Zn, &'static str>("GPU not initialized"),
        ctx.active && initialized && len > MAX_SUBMIT_3D ==> r == Err::<Zn, &'static str>("Command buffer too large"),
        ctx.active && initialized && len <= MAX_SUBMIT_3D ==> r is Ok && r->Ok_0.size == len && r->Ok_0.kp.ctx_id == ctx.ctx_id
            && r->Ok_0.kp.ctrl_type == ctrl_code(GpuCtrlType::CmdSubmit3d),
{
    if !ctx.active {
        return Err("No active 3D context");
    }
    if !initialized {
        return Err("GPU not initialized");
    }
    if len > MAX_SUBMIT_3D {
        return Err("Command buffer too large");
    }
    Ok(Zn { kp: Ac::of_type(GpuCtrlType::CmdSubmit3d, ctx.ctx_id), size: len as u32, padding: 0 })
}

/// Which buffer rendering goes to: the scanout backing, or the second
/// buffer.
#[derive(Clone, Copy, Debug, PartialEq, Eq, Structural)]
pub enum BufferChoice {
    Backing,
    Back,
}

impl VirtioGpu {
    /// The buffer not on screen: the backing buffer without double
    /// buffering; else the one whose resource is not in front.
    pub fn get_back_buffer(&self) -> (b: BufferChoice)
        ensures
            b == (if !self.double_buffer_enabled { BufferChoice::Backing } else if self.front_is_a {
                BufferChoice::Back
            } else {
                BufferChoice::Backing
            }),
    {
        if !self.double_buffer_enabled {
            BufferChoice::Backing
        } else if self.front_is_a {
            BufferChoice::Back
        } else {
            BufferChoice::Backing
        }
    }

    /// The scanout backing buffer.
    pub fn qhe(&self) -> (b: BufferChoice)
        ensures
            b == BufferChoice::Backing,
    {
        BufferChoice::Backing
    }
}

/// Whether the device offers 3D.
pub fn qkt(g: &VirtioGpu) -> (b: bool)
    ensures
        b == g.has_3d,
{
    g.has_3d
}

pub open spec fn gcl_spec(g: VirtioGpu) -> Seq<char> {
    if g.initialized {
        "VirtIO GPU: "@ + decimal((g.display_width) as nat) + "x"@ + decimal((g.display_height) as nat) + " 2D (3D="@ + (if g.has_3d { "virgl" } else { "no" })@ + ")"@
    } else {
        "VirtIO GPU: not available"@
    }
}

/// One-line state of the device.
pub fn gcl(g: &VirtioGpu) -> (s: String)
    ensures
        s@ == gcl_spec(*g),
{
    if g.initialized {
        let mut out: Vec<char> = Vec::new();
        push_text(&mut out, "VirtIO GPU: ");
        push_decimal(&mut out, (g.display_width) as u64);
        push_text(&mut out, "x");
        push_decimal(&mut out, (g.display_height) as u64);
        push_text(&mut out, " 2D (3D=");
        push_text(&mut out, if g.has_3d { "virgl" } else { "no" });
        push_text(&mut out, ")");
        crate::util::chars_to_string(out)
    } else {
        String::from_str("VirtIO GPU: not available")
    }
}

pub open spec fn rbz_spec(g: VirtioGpu, ctx: Agc) -> Seq<char> {
    if g.has_3d {
        "VIRGL: "@ + (if ctx.active { "active" } else { "ready" })@ + " (ctx="@ + decimal((ctx.ctx_id) as nat) + ")"@
    } else {
        "VIRGL: not available"@
    }
}

/// One-line state of 3D support.
pub fn rbz(g: &VirtioGpu, ctx: &Agc) -> (s: String)
    ensures
        s@ == rbz_spec(*g, *ctx),
{
    if g.has_3d {
        let mut out: Vec<char> = Vec::new();
        push_text(&mut out, "VIRGL: ");
        push_text(&mut out, if ctx.active { "active" } else { "ready" });
        push_text(&mut out, " (ctx=");
        push_decimal(&mut out, (ctx.ctx_id) as u64);
        push_text(&mut out, ")");
        crate::util::chars_to_string(out)
    } else {
        String::from_str("VIRGL: not available")
    }
}

/// Rows of a `h`-row surface at `y` that fit a framebuffer `fb_h` rows high.
pub open spec fn clipped(len: u32, at: u32, fb: u32) -> int {
    if at >= fb { 0 } else if len <= fb - at { len as int } else { fb - at }
}

/// The framebuffer writes for row `r` of `surface` placed at (`x`, `y`):
/// the first `cols` pixels, left to right.
pub open spec fn row_writes(surface: GpuSurface, x: u32, y: u32, r: int, cols: int) -> Seq<(u32, u32, u32)> {
    Seq::new(cols as nat, |c: int| ((x + c) as u32, (y + r) as u32, surface.pixel(c, r)))
}

/// The framebuffer writes for the first `rows` rows, top to bottom.
pub open spec fn blit_rows(surface: GpuSurface, x: u32, y: u32, rows: int, cols: int) -> Seq<(u32, u32, u32)>
    decreases rows,
{
    if rows <= 0 {
        Seq::empty()
    } else {
        blit_rows(surface, x, y, rows - 1, cols) + row_writes(surface, x, y, rows - 1, cols)
    }
}

/// The writes that copy `surface` to a framebuffer of `fb_w` x `fb_h`
/// pixels at (`x`, `y`), clipped to the framebuffer.
pub open spec fn blit_spec(surface: GpuSurface, x: u32, y: u32, fb_w: u32, fb_h: u32) -> Seq<(u32, u32, u32)> {
    blit_rows(surface, x, y, clipped(surface.height, y, fb_h), clipped(surface.width, x, fb_w))
}

proof fn lemma_blit_rows_index(surface: GpuSurface, x: u32, y: u32, rows: int, cols: int)
    requires
        0 <= rows,
        0 <= cols,
    ensures
        blit_rows(surface, x, y, rows, cols).len() == rows * cols,
        forall|r: int, c: int|
            0 <= r < rows && 0 <= c < cols ==> #[trigger] blit_rows(surface, x, y, rows, cols)[r * cols + c] == (
            (x + c) as u32,
            (y + r) as u32,
            surface.pixel(c, r),
        ),
    decreases rows,
{
    if rows > 0 {
        lemma_blit_rows_index(surface, x, y, rows - 1, cols);
        let prev = blit_rows(surface, x, y, rows - 1, cols);
        assert((rows - 1) * cols + cols == rows * cols) by (nonlinear_arith);
        assert forall|r: int, c: int| 0 <= r < rows && 0 <= c < cols implies #[trigger] blit_rows(
            surface,
            x,
            y,
            rows,
            cols,
        )[r * cols + c] == ((x + c) as u32, (y + r) as u32, surface.pixel(c, r)) by {
            if r < rows - 1 {
                assert(r * cols + c < (rows - 1) * cols) by (nonlinear_arith)
                    requires r < rows - 1, c < cols, 0 <= c;
                assert(prev[r * cols + c] == ((x + c) as u32, (y + r) as u32, surface.pixel(c, r)));
            } else {
                assert(r * cols + c - prev.len() == c) by (nonlinear_arith)
                    requires r == rows - 1, prev.len() == (rows - 1) * cols;
            }
        }
    }
}

/// Copy law: the writes of a copy number `rows * cols` (the clipped height
/// and width), and write `rows * cols` entries, entry `r * cols + c` putting
/// the surface's pixel (`c`, `r`) at (`x + c`, `y + r`).
pub proof fn law_blit_writes(surface: GpuSurface, x: u32, y: u32, fb_w: u32, fb_h: u32)
    ensures
        ({
            let rows = clipped(surface.height, y, fb_h);
            let cols = clipped(surface.width, x, fb_w);
            let v = blit_spec(surface, x, y, fb_w, fb_h);
            &&& v.len() == rows * cols
            &&& forall|r: int, c: int|
                0 <= r < rows && 0 <= c < cols ==> #[trigger] v[r * cols + c] == (
                    (x + c) as u32,
                    (y + r) as u32,
                    surface.pixel(c, r),
                )
        }),
{
    lemma_blit_rows_index(
        surface,
        x,
        y,
        clipped(surface.height, y, fb_h),
        clipped(surface.width, x, fb_w),
    );
}

/// The framebuffer writes, in order, that copy `surface` to a framebuffer
/// of `fb_w` x `fb_h` pixels at (`x`, `y`): row by row, each row left to
/// right, stopping at the framebuffer's bottom and right edges.
pub fn kcn(surface: &GpuSurface, x: u32, y: u32, fb_w: u32, fb_h: u32) -> (v: Vec<(u32, u32, u32)>)
    requires
        surface.wf(),
    ensures
        v@ == blit_spec(*surface, x, y, fb_w, fb_h),
{
    let rows: u32 = if y >= fb_h { 0 } else if surface.height <= fb_h - y { surface.height } else { fb_h - y };
    let cols: u32 = if x >= fb_w { 0 } else if surface.width <= fb_w - x { surface.width } else { fb_w - x };
    let mut v: Vec<(u32, u32, u32)> = Vec::new();
    let mut row: u32 = 0;
    while row < rows
        invariant
            surface.wf(),
            rows == clipped(surface.height, y, fb_h),
            cols == clipped(surface.width, x, fb_w),
            row <= rows,
            v@ == blit_rows(*surface, x, y, row as int, cols as int),
        decreases rows - row,
    {
        let ghost start = v@;
        let mut col: u32 = 0;
        while col < cols
            invariant
                surface.wf(),
                rows == clipped(surface.height, y, fb_h),
                cols == clipped(surface.width, x, fb_w),
                row < rows,
                col <= cols,
                v@ == start + row_writes(*surface, x, y, row as int, col as int),
            decreases cols - col,
        {
            let c = surface.get_pixel(col, row);
            v.push((x + col, y + row, c));
            col = col + 1;
            assert(v@ =~= start + row_writes(*surface, x, y, row as int, col as int));
        }
        row = row + 1;
    }
    v
}

impl Compositor {
    /// The framebuffer writes that show the composed output at the
    /// framebuffer's origin.
    pub fn render(&self, fb_w: u32, fb_h: u32) -> (v: Vec<(u32, u32, u32)>)
        requires
            self.wf(),
        ensures
            v@ == blit_spec(self.spec_output(), 0, 0, fb_w, fb_h),
    {
        kcn(&self.output, 0, 0, fb_w, fb_h)
    }
}

} // verus!
