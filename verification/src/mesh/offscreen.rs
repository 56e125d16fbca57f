//! A frame buffer that records which part of it was drawn into.

use vstd::arithmetic::div_mod::{
    lemma_div_pos_is_pos, lemma_fundamental_div_mod, lemma_fundamental_div_mod_converse,
    lemma_mod_bound, lemma_multiply_divide_lt,
};
use vstd::prelude::*;

use crate::mesh::dirty_rect::{DirtyRect, VIEW_HEIGHT, VIEW_PIXELS, VIEW_WIDTH};

verus! {

/// Column of the pixel at index `i` of the frame buffer.
pub open spec fn column(i: int) -> int {
    i % 320
}

/// Row of the pixel at index `i` of the frame buffer.
pub open spec fn row(i: int) -> int {
    i / 320
}

/// A coloured point, which may lie outside the view.
#[derive(Clone, Copy)]
pub struct Pixel {
    pub x: i32,
    pub y: i32,
    pub color: u16,
}

/// A rectangle by its upper left corner and its size.
#[derive(Clone, Copy)]
pub struct Area {
    pub x: i32,
    pub y: i32,
    pub width: u32,
    pub height: u32,
}

/// The pixels of a frame buffer, and the box that was drawn into.
pub struct Canvas {
    pub pixels: Seq<u16>,
    pub dirty: DirtyRect,
}

impl Canvas {
    /// After one pixel: it is set and recorded where it lies in the view, and
    /// ignored elsewhere.
    pub open spec fn with_pixel(self, p: Pixel) -> Canvas {
        if 0 <= p.x < VIEW_WIDTH && 0 <= p.y < VIEW_HEIGHT {
            Canvas {
                pixels: self.pixels.update(p.y * 320 + p.x, p.color),
                dirty: self.dirty.with_point(p.x as usize, p.y as usize),
            }
        } else {
            self
        }
    }

    /// After a list of pixels, in their order.
    pub open spec fn with_pixels(self, list: Seq<Pixel>) -> Canvas
        decreases list.len(),
    {
        if list.len() == 0 {
            self
        } else {
            self.with_pixels(list.drop_last()).with_pixel(list.last())
        }
    }

    /// After the colours were laid out over the area.
    pub open spec fn with_fill(self, area: Area, colors: Seq<u16>) -> Canvas {
        if area.left() < area.right() && area.top() < area.bottom() {
            Canvas {
                pixels: area.laid_out(self.pixels, colors, area.laid(colors.len())),
                dirty: self.dirty.with_point(area.left() as usize, area.top() as usize).with_point(
                    (area.right() - 1) as usize,
                    (area.bottom() - 1) as usize,
                ),
            }
        } else {
            self
        }
    }

    /// After the whole view was set to one colour.
    pub open spec fn cleared(self, color: u16) -> Canvas {
        Canvas {
            pixels: Seq::new(self.pixels.len(), |i: int| color),
            dirty: DirtyRect {
                min_x: 0,
                min_y: 0,
                max_x: (VIEW_WIDTH - 1) as usize,
                max_y: (VIEW_HEIGHT - 1) as usize,
            },
        }
    }
}

/// The value of a `u32` read as an `i32`.
pub open spec fn signed(v: u32) -> int {
    if v > i32::MAX {
        v - u32::MAX - 1
    } else {
        v as int
    }
}

/// The value of an `i32` read as a `usize`.
pub open spec fn unsigned(v: int) -> int {
    if v < 0 {
        v + usize::MAX + 1
    } else {
        v
    }
}

impl Area {
    /// First column.
    pub open spec fn left(self) -> int {
        if self.x < 0 {
            0
        } else {
            self.x as int
        }
    }

    /// First row.
    pub open spec fn top(self) -> int {
        if self.y < 0 {
            0
        } else {
            self.y as int
        }
    }

    /// The column after the last, cut at the view's edge. An area that ends left
    /// of the view has none: its edge wraps round to a huge number.
    pub open spec fn right(self) -> int {
        let end = self.x + signed(self.width);
        unsigned(if end > VIEW_WIDTH {
            VIEW_WIDTH as int
        } else {
            end
        })
    }

    /// The row after the last, in the same way.
    pub open spec fn bottom(self) -> int {
        let end = self.y + signed(self.height);
        unsigned(if end > VIEW_HEIGHT {
            VIEW_HEIGHT as int
        } else {
            end
        })
    }

    /// The far corner is an `i32` in both directions.
    pub open spec fn ends_fit(self) -> bool {
        i32::MIN <= self.x + signed(self.width) <= i32::MAX && i32::MIN <= self.y + signed(
            self.height,
        ) <= i32::MAX
    }

    /// How many of `n` colours the area takes.
    pub open spec fn laid(self, n: nat) -> nat {
        let room = (self.right() - self.left()) * (self.bottom() - self.top());
        if n <= room {
            n
        } else {
            room as nat
        }
    }

    /// Where the colour `k` goes: row by row, from the left.
    pub open spec fn place(self, k: int) -> int {
        (self.top() + k / (self.right() - self.left())) * 320 + self.left() + k % (self.right()
            - self.left())
    }

    /// The pixels after the first `n` colours have been put in their places.
    pub open spec fn laid_out(self, pixels: Seq<u16>, colors: Seq<u16>, n: nat) -> Seq<u16>
        decreases n,
    {
        if n == 0 {
            pixels
        } else {
            self.laid_out(pixels, colors, (n - 1) as nat).update(
                self.place(n - 1),
                colors[n - 1],
            )
        }
    }

    /// Every one of `n` colours that the area takes has its place in the frame
    /// buffer.
    pub open spec fn in_buffer(self, n: nat) -> bool {
        area_is_drawn(self) ==> forall|k: int|
            0 <= k < self.laid(n) ==> 0 <= #[trigger] self.place(k) < VIEW_PIXELS
    }
}

/// The area has a column and a row to draw.
pub open spec fn area_is_drawn(area: Area) -> bool {
    area.left() < area.right() && area.top() < area.bottom()
}

fn as_signed(v: u32) -> (r: i32)
    ensures
        r == signed(v),
{
    if v <= 0x7fff_ffff {
        v as i32
    } else {
        -((0xffff_ffff - v) as i32) - 1
    }
}

fn as_unsigned(v: i32) -> (r: usize)
    ensures
        r == unsigned(v as int),
{
    if v >= 0 {
        v as usize
    } else {
        usize::MAX - ((-(v + 1)) as usize)
    }
}

impl Area {
    /// The edges of what is drawn: left, top, right and bottom, the last two
    /// exclusive.
    fn edges(&self) -> (e: (usize, usize, usize, usize))
        requires
            self.ends_fit(),
        ensures
            e.0 == self.left(),
            e.1 == self.top(),
            e.2 == self.right(),
            e.3 == self.bottom(),
    {
        let left: i32 = if self.x < 0 {
            0
        } else {
            self.x
        };
        let top: i32 = if self.y < 0 {
            0
        } else {
            self.y
        };
        let end_x: i32 = self.x + as_signed(self.width);
        let end_y: i32 = self.y + as_signed(self.height);
        let right: i32 = if end_x > 320 {
            320
        } else {
            end_x
        };
        let bottom: i32 = if end_y > 240 {
            240
        } else {
            end_y
        };
        (left as usize, top as usize, as_unsigned(right), as_unsigned(bottom))
    }
}

/// Sets every element of a buffer of the view's size.
pub fn fill_all(buffer: &mut [u16; VIEW_PIXELS], value: u16)
    ensures
        final(buffer)@ == Seq::new(VIEW_PIXELS as nat, |i: int| value),
{
    let mut i: usize = 0;
    while i < VIEW_PIXELS
        invariant
            i <= VIEW_PIXELS,
            forall|j: int| 0 <= j < i ==> buffer@[j] == value,
        decreases VIEW_PIXELS - i,
    {
        buffer[i] = value;
        i += 1;
    }
    assert(buffer@ =~= Seq::new(VIEW_PIXELS as nat, |i: int| value));
}

/// A frame buffer of the view's size with the box that was drawn into.
pub struct OffscreenBuffer<'a> {
    pub pixels: &'a mut [u16; VIEW_PIXELS],
    pub dirty: DirtyRect,
}

impl<'a> OffscreenBuffer<'a> {
    /// The pixels and the box.
    pub open spec fn canvas(self) -> Canvas {
        Canvas { pixels: self.pixels@, dirty: self.dirty }
    }

    /// Width and height in pixels.
    pub fn size(&self) -> (size: (u32, u32))
        ensures
            size == (320u32, 240u32),
    {
        (VIEW_WIDTH as u32, VIEW_HEIGHT as u32)
    }

    /// Sets one pixel, where it lies in the view.
    pub fn draw_pixel(&mut self, pixel: Pixel)
        ensures
            final(self).canvas() == old(self).canvas().with_pixel(pixel),
    {
        if pixel.x >= 0 && pixel.x < VIEW_WIDTH as i32 && pixel.y >= 0 && pixel.y
            < VIEW_HEIGHT as i32 {
            let x: usize = pixel.x as usize;
            let y: usize = pixel.y as usize;
            let idx: usize = y * VIEW_WIDTH + x;
            self.pixels[idx] = pixel.color;
            self.dirty.add_point(x, y);
        }
    }

    /// Sets a list of pixels, in their order.
    pub fn draw_iter(&mut self, pixels: &[Pixel])
        ensures
            final(self).canvas() == old(self).canvas().with_pixels(pixels@),
    {
        let mut i: usize = 0;
        assert(pixels@.take(0) =~= Seq::<Pixel>::empty());
        while i < pixels.len()
            invariant
                i <= pixels@.len(),
                self.canvas() == old(self).canvas().with_pixels(pixels@.take(i as int)),
            decreases pixels@.len() - i,
        {
            self.draw_pixel(pixels[i]);
            assert(pixels@.take(i + 1).drop_last() =~= pixels@.take(i as int));
            i += 1;
        }
        assert(pixels@.take(i as int) =~= pixels@);
    }

    /// Lays the colours out over the part of the area that is not beyond the
    /// right or the lower edge of the view, row by row, until either runs out.
    pub fn fill_contiguous(&mut self, area: &Area, colors: &[u16])
        requires
            area.ends_fit(),
            area.in_buffer(colors@.len()),
        ensures
            final(self).canvas() == old(self).canvas().with_fill(*area, colors@),
    {
        let (x_start, y_start, x_end, y_end) = area.edges();
        if x_start < x_end && y_start < y_end {
            self.dirty.add_point(x_start, y_start);
            self.dirty.add_point(x_end - 1, y_end - 1);
            let ghost dirty = self.dirty;
            let ghost width = x_end - x_start;
            let ghost room = width * (y_end - y_start);
            let mut x: usize = x_start;
            let mut y: usize = y_start;
            let mut k: usize = 0;
            proof {
                assert((0int) * width == 0) by (nonlinear_arith);
                assert(room > 0) by (nonlinear_arith)
                    requires
                        room == width * (y_end - y_start),
                        width > 0,
                        y_end > y_start,
                ;
            }
            while k < colors.len() && y < y_end
                invariant
                    x_start == area.left(),
                    y_start == area.top(),
                    x_end == area.right(),
                    y_end == area.bottom(),
                    width == x_end - x_start,
                    room == width * (y_end - y_start),
                    area.in_buffer(colors@.len()),
                    x_start <= x < x_end,
                    y_start <= y <= y_end,
                    y_start < y_end,
                    k == (y - y_start) * width + (x - x_start),
                    y == y_end ==> x == x_start,
                    k <= colors@.len(),
                    k <= room,
                    self.dirty == dirty,
                    self.pixels@ == area.laid_out(old(self).pixels@, colors@, k as nat),
                decreases colors@.len() - k,
            {
                proof {
                    lemma_fundamental_div_mod_converse(
                        k as int,
                        width,
                        y - y_start,
                        x - x_start,
                    );
                    assert((y - y_start) * width + width <= room) by (nonlinear_arith)
                        requires
                            room == width * (y_end - y_start),
                            y < y_end,
                            width > 0,
                    ;
                    assert(area.place(k as int) == y * 320 + x);
                }
                self.pixels[y * VIEW_WIDTH + x] = colors[k];
                k += 1;
                x += 1;
                if x == x_end {
                    x = x_start;
                    y += 1;
                    assert(k == (y - y_start) * width) by (nonlinear_arith)
                        requires
                            k == (y - 1 - y_start) * width + width,
                    ;
                }
            }
            proof {
                if y == y_end {
                    assert(k == room) by (nonlinear_arith)
                        requires
                            k == (y - y_start) * width + (x - x_start),
                            room == width * (y_end - y_start),
                            y == y_end,
                            x == x_start,
                    ;
                }
            }
            assert(k == area.laid(colors@.len()));
        }
    }

    /// Sets every pixel.
    pub fn clear(&mut self, color: u16)
        ensures
            final(self).canvas() == old(self).canvas().cleared(color),
    {
        fill_all(self.pixels, color);
        self.dirty = DirtyRect {
            min_x: 0,
            min_y: 0,
            max_x: VIEW_WIDTH - 1,
            max_y: VIEW_HEIGHT - 1,
        };
    }
}

impl Area {
    /// Whether [`OffscreenBuffer::fill_contiguous`] can be called with this area
    /// and `n` colours.
    pub fn accepts(&self, n: usize) -> (ok: bool)
        ensures
            ok == (self.ends_fit() && self.in_buffer(n as nat)),
    {
        let end_x: i64 = self.x as i64 + as_signed(self.width) as i64;
        let end_y: i64 = self.y as i64 + as_signed(self.height) as i64;
        if end_x < i32::MIN as i64 || end_x > i32::MAX as i64 || end_y < i32::MIN as i64 || end_y
            > i32::MAX as i64 {
            return false;
        }
        let (x_start, y_start, x_end, y_end) = self.edges();
        if x_start >= x_end || y_start >= y_end {
            return true;
        }
        let ghost width = x_end - x_start;
        let ghost room = width * (y_end - y_start);
        let mut x: usize = x_start;
        let mut y: usize = y_start;
        let mut k: usize = 0;
        proof {
            assert((0int) * width == 0) by (nonlinear_arith);
            assert(room > 0) by (nonlinear_arith)
                requires
                    room == width * (y_end - y_start),
                    width > 0,
                    y_end > y_start,
            ;
        }
        while k < n && y < y_end
            invariant
                x_start == self.left(),
                y_start == self.top(),
                x_end == self.right(),
                y_end == self.bottom(),
                width == x_end - x_start,
                room == width * (y_end - y_start),
                self.ends_fit(),
                x_start <= x < x_end,
                y_start <= y <= y_end,
                y_start < y_end,
                k == (y - y_start) * width + (x - x_start),
                y == y_end ==> x == x_start,
                k <= n,
                k <= room,
                forall|j: int| 0 <= j < k ==> 0 <= #[trigger] self.place(j) < VIEW_PIXELS,
            decreases n - k,
        {
            proof {
                lemma_fundamental_div_mod_converse(k as int, width, y - y_start, x - x_start);
                assert((y - y_start) * width + width <= room) by (nonlinear_arith)
                    requires
                        room == width * (y_end - y_start),
                        y < y_end,
                        width > 0,
                ;
                assert(self.place(k as int) == y * 320 + x);
                assert(k < self.laid(n as nat));
            }
            if y >= VIEW_HEIGHT || x >= VIEW_PIXELS || y * VIEW_WIDTH + x >= VIEW_PIXELS {
                return false;
            }
            k += 1;
            x += 1;
            if x == x_end {
                x = x_start;
                y += 1;
                assert(k == (y - y_start) * width) by (nonlinear_arith)
                    requires
                        k == (y - 1 - y_start) * width + width,
                ;
            }
        }
        proof {
            if y == y_end {
                assert(k == room) by (nonlinear_arith)
                    requires
                        k == (y - y_start) * width + (x - x_start),
                        room == width * (y_end - y_start),
                        y == y_end,
                        x == x_start,
                ;
            }
        }
        assert(k == self.laid(n as nat));
        true
    }
}

impl Area {
    /// How many colours the area takes, if there are enough: none where nothing of
    /// it is drawn, and one more than the frame buffer has pixels where it would
    /// take more. `None` where its far corner is no `i32`.
    pub fn wanted(&self) -> (n: Option<usize>)
        ensures
            n is Some <==> self.ends_fit(),
            n matches Some(k) ==> k == if area_is_drawn(*self) {
                self.laid((VIEW_PIXELS + 1) as nat)
            } else {
                0
            },
    {
        let end_x: i64 = self.x as i64 + as_signed(self.width) as i64;
        let end_y: i64 = self.y as i64 + as_signed(self.height) as i64;
        if end_x < i32::MIN as i64 || end_x > i32::MAX as i64 || end_y < i32::MIN as i64 || end_y
            > i32::MAX as i64 {
            return None;
        }
        let (x_start, y_start, x_end, y_end) = self.edges();
        if x_start >= x_end || y_start >= y_end {
            return Some(0);
        }
        let width: u64 = (x_end - x_start) as u64;
        let height: u64 = (y_end - y_start) as u64;
        let most: u64 = VIEW_PIXELS as u64 + 1;
        if width >= most || height >= most {
            assert(width * height >= most) by (nonlinear_arith)
                requires
                    width >= most || height >= most,
                    width >= 1,
                    height >= 1,
            ;
            return Some(VIEW_PIXELS + 1);
        }
        assert(0 <= width * height <= 76800 * 76800) by (nonlinear_arith)
            requires
                width <= 76800,
                height <= 76800,
        ;
        let room: u64 = width * height;
        if room < most {
            Some(room as usize)
        } else {
            Some(VIEW_PIXELS + 1)
        }
    }
}

/// A step from one canvas to another that the box records: every pixel
/// that differs lies in the new box, and so does all that lay in the old one.
pub open spec fn recorded(before: Canvas, after: Canvas) -> bool {
    &&& after.pixels.len() == before.pixels.len()
    &&& forall|i: int|
        0 <= i < before.pixels.len() && #[trigger] after.pixels[i] != before.pixels[i]
            ==> after.dirty.holds(column(i), row(i))
    &&& forall|x: int, y: int| #[trigger]
        before.dirty.holds(x, y) ==> after.dirty.holds(x, y)
}

/// The step that changes nothing is recorded, and so are two recorded steps taken
/// together.
pub proof fn law_recorded_steps_compose(a: Canvas, b: Canvas, c: Canvas)
    ensures
        recorded(a, a),
        recorded(a, b) && recorded(b, c) ==> recorded(a, c),
{
    if recorded(a, b) && recorded(b, c) {
        assert forall|i: int|
            0 <= i < a.pixels.len() && #[trigger] c.pixels[i] != a.pixels[i] implies c.dirty.holds(
            column(i),
            row(i),
        ) by {
            if b.pixels[i] != a.pixels[i] {
                assert(b.dirty.holds(column(i), row(i)));
            }
        }
    }
}

/// Drawing a list of pixels is recorded.
pub proof fn law_draw_iter_is_recorded(canvas: Canvas, list: Seq<Pixel>)
    requires
        canvas.pixels.len() == VIEW_PIXELS,
    ensures
        recorded(canvas, canvas.with_pixels(list)),
    decreases list.len(),
{
    if list.len() > 0 {
        let before = canvas.with_pixels(list.drop_last());
        law_draw_iter_is_recorded(canvas, list.drop_last());
        assert(recorded(before, before.with_pixel(list.last())));
        law_recorded_steps_compose(canvas, before, before.with_pixel(list.last()));
    }
}

/// Drawing one list and then another is drawing the two joined.
pub proof fn law_draw_iter_joins(canvas: Canvas, first: Seq<Pixel>, second: Seq<Pixel>)
    ensures
        canvas.with_pixels(first).with_pixels(second) == canvas.with_pixels(first + second),
    decreases second.len(),
{
    if second.len() == 0 {
        assert(first + second =~= first);
    } else {
        law_draw_iter_joins(canvas, first, second.drop_last());
        assert((first + second).drop_last() =~= first + second.drop_last());
    }
}

/// A pixel in the view is read back where it was drawn, and no other changes.
pub proof fn law_pixel_reads_back(canvas: Canvas, p: Pixel, x: int, y: int)
    requires
        canvas.pixels.len() == VIEW_PIXELS,
        0 <= x < VIEW_WIDTH,
        0 <= y < VIEW_HEIGHT,
    ensures
        canvas.with_pixel(p).pixels[y * 320 + x] == if p.x == x && p.y == y {
            p.color
        } else {
            canvas.pixels[y * 320 + x]
        },
{
}

/// Setting the whole view is recorded.
pub proof fn law_clear_is_recorded(canvas: Canvas, color: u16)
    requires
        canvas.pixels.len() == VIEW_PIXELS,
        canvas.dirty.in_view(),
    ensures
        recorded(canvas, canvas.cleared(color)),
{
}

/// Where the colour `k` of a drawn area lies.
proof fn lemma_place(area: Area, k: int, n: nat)
    requires
        area_is_drawn(area),
        area.right() <= VIEW_WIDTH,
        area.bottom() <= VIEW_HEIGHT,
        0 <= k < area.laid(n),
    ensures
        area.left() <= column(area.place(k)) < area.right(),
        area.top() <= row(area.place(k)) < area.bottom(),
        0 <= area.place(k) < VIEW_PIXELS,
        k == (row(area.place(k)) - area.top()) * (area.right() - area.left()) + (column(
            area.place(k),
        ) - area.left()),
{
    let w = area.right() - area.left();
    let h = area.bottom() - area.top();
    lemma_multiply_divide_lt(k, w, h);
    lemma_fundamental_div_mod(k, w);
    lemma_mod_bound(k, w);
    lemma_div_pos_is_pos(k, w);
    assert(w * (k / w) == (k / w) * w) by (nonlinear_arith);
}

/// An area that does not end left of the view or above it fills only pixels of
/// the frame buffer, whatever the number of colours.
pub proof fn law_fill_stays_in_buffer(area: Area, n: nat)
    requires
        area.x + signed(area.width) >= 0,
        area.y + signed(area.height) >= 0,
    ensures
        area.in_buffer(n),
{
    if area_is_drawn(area) {
        assert forall|k: int| 0 <= k < area.laid(n) implies 0 <= #[trigger] area.place(k)
            < VIEW_PIXELS by {
            lemma_place(area, k, n);
        }
    }
}

/// The pixels after a fill: those of the area that a colour was left for, in rows
/// from the left, take that colour, and the others stay.
pub proof fn law_fill_pixels(area: Area, pixels: Seq<u16>, colors: Seq<u16>, n: nat, i: int)
    requires
        area_is_drawn(area),
        area.x + signed(area.width) >= 0,
        area.y + signed(area.height) >= 0,
        pixels.len() == VIEW_PIXELS,
        n <= area.laid(colors.len()),
        0 <= i < VIEW_PIXELS,
    ensures
        ({
            let k = (row(i) - area.top()) * (area.right() - area.left()) + (column(i)
                - area.left());
            area.laid_out(pixels, colors, n)[i] == if area.left() <= column(i) < area.right()
                && area.top() <= row(i) < area.bottom() && k < n {
                colors[k]
            } else {
                pixels[i]
            }
        }),
        area.laid_out(pixels, colors, n).len() == pixels.len(),
    decreases n,
{
    let w = area.right() - area.left();
    let k = (row(i) - area.top()) * w + (column(i) - area.left());
    if n > 0 {
        law_fill_pixels(area, pixels, colors, (n - 1) as nat, i);
        lemma_place(area, n - 1, colors.len());
        let p = area.place(n - 1);
        if area.left() <= column(i) < area.right() && area.top() <= row(i) < area.bottom() && k == n
            - 1 {
            lemma_fundamental_div_mod_converse(k, w, row(i) - area.top(), column(i) - area.left());
            assert(p == i);
        }
    } else if area.left() <= column(i) < area.right() && area.top() <= row(i) < area.bottom() {
        assert((row(i) - area.top()) * w >= 0) by (nonlinear_arith)
            requires
                row(i) >= area.top(),
                w > 0,
        ;
    }
}

/// Filling an area is recorded, where the area does not end left of the view or
/// above it.
pub proof fn law_fill_is_recorded(canvas: Canvas, area: Area, colors: Seq<u16>)
    requires
        canvas.pixels.len() == VIEW_PIXELS,
        area.x + signed(area.width) >= 0,
        area.y + signed(area.height) >= 0,
    ensures
        recorded(canvas, canvas.with_fill(area, colors)),
{
    if area_is_drawn(area) {
        let n = area.laid(colors.len());
        law_fill_pixels(area, canvas.pixels, colors, n, 0);
        assert forall|i: int|
            0 <= i < canvas.pixels.len() && #[trigger] canvas.with_fill(area, colors).pixels[i]
                != canvas.pixels[i] implies canvas.with_fill(area, colors).dirty.holds(
            column(i),
            row(i),
        ) by {
            law_fill_pixels(area, canvas.pixels, colors, n, i);
        }
    }
}

/// A pixel outside the view changes nothing. One inside is recorded: a box that holds
/// it stays, and the empty box becomes that pixel.
pub proof fn law_stray_pixel_is_ignored(canvas: Canvas, p: Pixel)
    requires
        canvas.pixels.len() == VIEW_PIXELS,
    ensures
        !(0 <= p.x < 320 && 0 <= p.y < 240) ==> canvas.with_pixel(p) == canvas,
        0 <= p.x < 320 && 0 <= p.y < 240 ==> {
            &&& canvas.with_pixel(p).dirty.holds(p.x as int, p.y as int)
            &&& canvas.with_pixel(p).pixels[p.y * 320 + p.x] == p.color
            &&& canvas.dirty.holds(p.x as int, p.y as int) ==> canvas.with_pixel(p).dirty
                == canvas.dirty
            &&& canvas.dirty == DirtyRect::nothing() ==> canvas.with_pixel(p).dirty == (DirtyRect {
                min_x: p.x as usize,
                min_y: p.y as usize,
                max_x: p.x as usize,
                max_y: p.y as usize,
            })
        },
{
}

/// Setting the whole view leaves no pixel as it was, and records all of them.
pub proof fn law_clear_sets_all(canvas: Canvas, color: u16, x: int, y: int)
    requires
        canvas.pixels.len() == VIEW_PIXELS,
        0 <= x < 320,
        0 <= y < 240,
    ensures
        canvas.cleared(color).pixels.len() == VIEW_PIXELS,
        canvas.cleared(color).pixels[y * 320 + x] == color,
        canvas.cleared(color).dirty.holds(x, y),
        canvas.cleared(color).dirty.in_view(),
{
}

/// Where the colours of an area go, for an area of ordinary size that reaches into
/// the view or up to it: the pixels of the area that lie in the view are filled row
/// by row from the upper left one of them, as long as there are colours, and no other
/// pixel changes. The box grows to hold the filled part, and stays where no pixel of
/// the area lies in the view.
pub proof fn law_fill_lands_in_view(canvas: Canvas, area: Area, colors: Seq<u16>, x: int, y: int)
    requires
        canvas.pixels.len() == VIEW_PIXELS,
        area.width <= i32::MAX,
        area.height <= i32::MAX,
        area.x + area.width >= 0,
        area.y + area.height >= 0,
        0 <= x < 320,
        0 <= y < 240,
    ensures
        ({
            let after = canvas.with_fill(area, colors);
            let left = if area.x > 0 {
                area.x as int
            } else {
                0
            };
            let top = if area.y > 0 {
                area.y as int
            } else {
                0
            };
            let right = if area.x + area.width < 320 {
                area.x + area.width
            } else {
                320
            };
            let bottom = if area.y + area.height < 240 {
                area.y + area.height
            } else {
                240
            };
            let inside = area.x <= x < area.x + area.width && area.y <= y < area.y + area.height;
            let k = (y - top) * (right - left) + (x - left);
            &&& !inside ==> after.pixels[y * 320 + x] == canvas.pixels[y * 320 + x]
            &&& inside && k < colors.len() ==> after.pixels[y * 320 + x] == colors[k]
            &&& inside && k >= colors.len() ==> after.pixels[y * 320 + x] == canvas.pixels[y * 320
                + x]
            &&& inside ==> after.dirty.holds(x, y)
            &&& left >= right || top >= bottom ==> after == canvas
            &&& left < right && top < bottom ==> after.dirty == canvas.dirty.merged(
                DirtyRect {
                    min_x: left as usize,
                    min_y: top as usize,
                    max_x: (right - 1) as usize,
                    max_y: (bottom - 1) as usize,
                },
            )
        }),
{
    let i = y * 320 + x;
    assert(column(i) == x && row(i) == y);
    if area_is_drawn(area) {
        let n = area.laid(colors.len());
        law_fill_pixels(area, canvas.pixels, colors, n, i);
        let w = area.right() - area.left();
        let h = area.bottom() - area.top();
        if area.left() <= x < area.right() && area.top() <= y < area.bottom() {
            assert((y - area.top()) * w + w <= h * w) by (nonlinear_arith)
                requires
                    y - area.top() + 1 <= h,
                    w > 0,
            ;
            assert(h * w == w * h) by (nonlinear_arith);
        }
    }
}

/// An area of ordinary size takes as many of the colours as it has pixels in the view,
/// or as many as there are, and its far corner is in range where it lies before the
/// largest coordinate.
pub proof fn law_area_takes_its_pixels(area: Area, n: nat)
    requires
        area.width <= i32::MAX,
        area.height <= i32::MAX,
        0 <= area.x + area.width <= i32::MAX,
        0 <= area.y + area.height <= i32::MAX,
    ensures
        ({
            let left = if area.x > 0 {
                area.x as int
            } else {
                0
            };
            let top = if area.y > 0 {
                area.y as int
            } else {
                0
            };
            let right = if area.x + area.width < 320 {
                area.x + area.width
            } else {
                320
            };
            let bottom = if area.y + area.height < 240 {
                area.y + area.height
            } else {
                240
            };
            &&& area.ends_fit()
            &&& area_is_drawn(area) <==> left < right && top < bottom
            &&& area_is_drawn(area) && n <= (right - left) * (bottom - top) ==> area.laid(n) == n
            &&& area_is_drawn(area) && n > (right - left) * (bottom - top) ==> area.laid(n) == (
            right - left) * (bottom - top)
            &&& area.in_buffer(n)
        }),
{
    law_fill_stays_in_buffer(area, n);
    if area_is_drawn(area) {
        assert((area.right() - area.left()) * (area.bottom() - area.top()) >= 0) by (nonlinear_arith)
            requires
                area.left() < area.right(),
                area.top() < area.bottom(),
        ;
    }
}

/// Sizes beyond the largest `i32` and edges left of the view or above it wrap round: a
/// size is read as the `i32` that differs from it by 2^32, and a negative edge as the
/// `usize` that differs from it by one more than the largest.
pub proof fn law_edges_wrap(area: Area)
    ensures
        i32::MIN <= signed(area.width) <= i32::MAX,
        signed(area.width) == area.width || signed(area.width) == area.width - 0x1_0000_0000,
        area.x + signed(area.width) < 0 ==> area.right() == area.x + signed(area.width) + usize::MAX
            + 1,
        area.y + signed(area.height) < 0 ==> area.bottom() == area.y + signed(area.height)
            + usize::MAX + 1,
{
}

} // verus!
