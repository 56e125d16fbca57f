//! Which part of the frame buffer is cleared before a frame and sent to the panel
//! after it.

use vstd::arithmetic::div_mod::{
    lemma_div_pos_is_pos, lemma_fundamental_div_mod, lemma_fundamental_div_mod_converse,
    lemma_mod_bound, lemma_multiply_divide_lt,
};
use vstd::prelude::*;

use crate::mesh::dirty_rect::{
    law_merge_covers, law_sanitize, min, DirtyRect, VIEW_HEIGHT, VIEW_PIXELS, VIEW_WIDTH,
};
use crate::mesh::offscreen::{column, law_fill_pixels, row, Area};

verus! {

/// The last row that belongs to the meshes. The rows below it show the
/// statistics.
pub const LAST_MESH_ROW: usize = 218;

/// The last row of the box that belongs to the meshes.
pub open spec fn last_row(rect: DirtyRect) -> usize {
    min(rect.max_y, LAST_MESH_ROW)
}

/// The box has rows that belong to the meshes.
pub open spec fn has_mesh_rows(rect: DirtyRect) -> bool {
    rect.valid() && rect.min_y <= last_row(rect)
}

/// The box ends inside the frame buffer, as far as its rows belong to the meshes.
pub open spec fn ends_in_buffer(rect: DirtyRect) -> bool {
    has_mesh_rows(rect) ==> last_row(rect) * 320 + rect.max_x < VIEW_PIXELS
}

/// The pixel at index `i` lies in one of the box's first `rows` rows, each taken
/// from the box's left to its right edge.
pub open spec fn in_rows(rect: DirtyRect, rows: int, i: int) -> bool {
    exists|y: int|
        rect.min_y <= y < rect.min_y + rows && #[trigger] (y * 320) + rect.min_x <= i <= y * 320
            + rect.max_x
}

/// A buffer after the box was set to one value, as far as its rows belong to the
/// meshes.
pub open spec fn region_cleared(buffer: Seq<u16>, rect: DirtyRect, value: u16) -> Seq<u16> {
    Seq::new(
        buffer.len(),
        |i: int|
            if has_mesh_rows(rect) && in_rows(rect, last_row(rect) - rect.min_y + 1, i) {
                value
            } else {
                buffer[i]
            },
    )
}

/// The pixels of `height` rows from the box's upper edge down, each from its left
/// to its right edge.
pub open spec fn region_pixels(buffer: Seq<u16>, rect: DirtyRect, height: int) -> Seq<u16> {
    let width = rect.max_x - rect.min_x + 1;
    Seq::new(
        (width * height) as nat,
        |k: int| buffer[(rect.min_y + k / width) * 320 + rect.min_x + k % width],
    )
}

/// Pixels for the panel, and where they go.
pub struct Blit {
    pub area: Area,
    pub pixels: Vec<u16>,
}

/// Sets the box to one value, as far as its rows belong to the meshes.
pub fn clear_region(buffer: &mut [u16; VIEW_PIXELS], rect: &DirtyRect, value: u16)
    requires
        ends_in_buffer(*rect),
    ensures
        final(buffer)@ == region_cleared(old(buffer)@, *rect, value),
{
    let max_y: usize = if rect.max_y < LAST_MESH_ROW {
        rect.max_y
    } else {
        LAST_MESH_ROW
    };
    if rect.is_valid() && rect.min_y <= max_y {
        let mut y: usize = rect.min_y;
        while y <= max_y
            invariant
                rect.valid(),
                max_y == last_row(*rect),
                max_y * 320 + rect.max_x < VIEW_PIXELS,
                rect.min_y <= y <= max_y + 1,
                forall|i: int|
                    0 <= i < VIEW_PIXELS ==> #[trigger] buffer@[i] == if in_rows(
                        *rect,
                        y - rect.min_y,
                        i,
                    ) {
                        value
                    } else {
                        old(buffer)@[i]
                    },
            decreases max_y + 1 - y,
        {
            let row_off: usize = y * VIEW_WIDTH;
            let start: usize = row_off + rect.min_x;
            let end: usize = row_off + rect.max_x + 1;
            let ghost before = buffer@;
            let mut at: usize = start;
            while at < end
                invariant
                    start <= at <= end,
                    end <= VIEW_PIXELS,
                    forall|i: int|
                        0 <= i < VIEW_PIXELS ==> #[trigger] buffer@[i] == if start <= i < at {
                            value
                        } else {
                            before[i]
                        },
                decreases end - at,
            {
                buffer[at] = value;
                at += 1;
            }
            proof {
                assert forall|i: int| 0 <= i < VIEW_PIXELS implies #[trigger] buffer@[i] == if in_rows(
                    *rect,
                    y + 1 - rect.min_y,
                    i,
                ) {
                    value
                } else {
                    old(buffer)@[i]
                } by {
                    assert(before[i] == if in_rows(*rect, y - rect.min_y, i) {
                        value
                    } else {
                        old(buffer)@[i]
                    });
                    if start <= i < end {
                        assert(y as int * 320 + rect.min_x <= i <= y * 320 + rect.max_x);
                    }
                }
            }
            y += 1;
        }
    }
    assert(buffer@ =~= region_cleared(old(buffer)@, *rect, value));
}

/// Reads `height` rows from the box's upper edge down.
pub fn read_region(buffer: &[u16; VIEW_PIXELS], rect: &DirtyRect, height: usize) -> (pixels: Vec<
    u16,
>)
    requires
        rect.min_x <= rect.max_x,
        height > 0 ==> (rect.min_y + height - 1) * 320 + rect.max_x < VIEW_PIXELS,
    ensures
        pixels@ == region_pixels(buffer@, *rect, height as int),
{
    let ghost width = rect.max_x - rect.min_x + 1;
    let mut pixels: Vec<u16> = Vec::new();
    let mut dy: usize = 0;
    assert((0int) * width == 0) by (nonlinear_arith);
    while dy < height
        invariant
            dy <= height,
            rect.min_x <= rect.max_x,
            width == rect.max_x - rect.min_x + 1,
            height > 0 ==> (rect.min_y + height - 1) * 320 + rect.max_x < VIEW_PIXELS,
            pixels@.len() == dy * width,
            forall|k: int|
                0 <= k < dy * width ==> #[trigger] pixels@[k] == buffer@[(rect.min_y + k / width)
                    * 320 + rect.min_x + k % width],
        decreases height - dy,
    {
        let row_off: usize = (rect.min_y + dy) * VIEW_WIDTH;
        let mut x: usize = rect.min_x;
        while x <= rect.max_x
            invariant
                dy < height,
                rect.min_x <= x <= rect.max_x + 1,
                width == rect.max_x - rect.min_x + 1,
                row_off == (rect.min_y + dy) * 320,
                row_off + rect.max_x < VIEW_PIXELS,
                pixels@.len() == dy * width + (x - rect.min_x),
                forall|k: int|
                    0 <= k < pixels@.len() ==> #[trigger] pixels@[k] == buffer@[(rect.min_y + k
                        / width) * 320 + rect.min_x + k % width],
            decreases rect.max_x + 1 - x,
        {
            proof {
                lemma_fundamental_div_mod_converse(
                    dy * width + (x - rect.min_x),
                    width,
                    dy as int,
                    x - rect.min_x,
                );
            }
            pixels.push(buffer[row_off + x]);
            x += 1;
        }
        assert(dy * width + width == (dy + 1) * width) by (nonlinear_arith);
        dy += 1;
    }
    assert(height * width == width * height) by (nonlinear_arith);
    assert(pixels@ =~= region_pixels(buffer@, *rect, height as int));
    pixels
}

/// Where the part of the box goes that is sent to the panel after a frame.
pub open spec fn sent_area(rect: DirtyRect) -> Area {
    Area {
        x: rect.min_x as i32,
        y: rect.min_y as i32,
        width: (rect.max_x - rect.min_x + 1) as u32,
        height: (last_row(rect) - rect.min_y + 1) as u32,
    }
}

/// The part of the box that is sent to the panel after a frame, `None` where no
/// row of it belongs to the meshes.
pub fn blit(buffer: &[u16; VIEW_PIXELS], rect: &DirtyRect) -> (sent: Option<Blit>)
    requires
        ends_in_buffer(*rect),
    ensures
        sent is Some <==> has_mesh_rows(*rect),
        sent is Some ==> {
            &&& sent->0.area == sent_area(*rect)
            &&& sent->0.area.x == rect.min_x
            &&& sent->0.area.y == rect.min_y
            &&& sent->0.area.width == rect.max_x - rect.min_x + 1
            &&& sent->0.area.height == last_row(*rect) - rect.min_y + 1
            &&& sent->0.pixels@ == region_pixels(
                buffer@,
                *rect,
                last_row(*rect) - rect.min_y + 1,
            )
        },
{
    let max_y: usize = if rect.max_y < LAST_MESH_ROW {
        rect.max_y
    } else {
        LAST_MESH_ROW
    };
    if rect.is_valid() && rect.min_y <= max_y {
        let width: usize = rect.max_x - rect.min_x + 1;
        let height: usize = max_y - rect.min_y + 1;
        let area = Area {
            x: rect.min_x as i32,
            y: rect.min_y as i32,
            width: width as u32,
            height: height as u32,
        };
        Some(Blit { area, pixels: read_region(buffer, rect, height) })
    } else {
        None
    }
}

/// The boxes that the two meshes took up in the last frame.
pub struct MeshBoxes {
    pub cube: DirtyRect,
    pub octa: DirtyRect,
}

impl MeshBoxes {
    /// Both boxes lie in the view, or are the empty one.
    pub open spec fn wf(self) -> bool {
        self.cube.in_view() && self.octa.in_view()
    }

    /// The box that is cleared before a frame.
    pub open spec fn clearing(self) -> DirtyRect {
        self.cube.merged(self.octa)
    }

    /// The boxes after a frame in which these two were drawn into.
    pub open spec fn moved(self, drawn_cube: DirtyRect, drawn_octa: DirtyRect) -> MeshBoxes {
        MeshBoxes { cube: drawn_cube.sanitized(), octa: drawn_octa.sanitized() }
    }

    /// The two boxes that are sent to the panel after such a frame.
    pub open spec fn sending(self, drawn_cube: DirtyRect, drawn_octa: DirtyRect) -> (
        DirtyRect,
        DirtyRect,
    ) {
        (
            drawn_cube.sanitized().merged(self.cube).sanitized(),
            drawn_octa.sanitized().merged(self.octa).sanitized(),
        )
    }

    /// Before the first frame.
    pub fn new() -> (boxes: Self)
        ensures
            boxes.wf(),
            boxes.cube == DirtyRect::nothing(),
            boxes.octa == DirtyRect::nothing(),
    {
        MeshBoxes { cube: DirtyRect::empty(), octa: DirtyRect::empty() }
    }

    /// The box that is cleared before a frame: it spans both meshes.
    pub fn to_clear(&self) -> (rect: DirtyRect)
        requires
            self.wf(),
        ensures
            rect == self.cube.merged(self.octa),
            rect == self.clearing(),
            ends_in_buffer(rect),
    {
        let mut rect = self.cube;
        rect.merge(&self.octa);
        rect
    }

    /// Takes the boxes that were drawn into in this frame, and returns the two that
    /// are sent to the panel: each mesh with the place it was in before.
    pub fn advance(&mut self, drawn_cube: DirtyRect, drawn_octa: DirtyRect) -> (sent: (
        DirtyRect,
        DirtyRect,
    ))
        ensures
            final(self).wf(),
            final(self).cube == drawn_cube.sanitized(),
            final(self).octa == drawn_octa.sanitized(),
            *final(self) == old(self).moved(drawn_cube, drawn_octa),
            sent == old(self).sending(drawn_cube, drawn_octa),
            sent.0 == drawn_cube.sanitized().merged(old(self).cube).sanitized(),
            sent.1 == drawn_octa.sanitized().merged(old(self).octa).sanitized(),
            ends_in_buffer(sent.0),
            ends_in_buffer(sent.1),
    {
        let mut cube = drawn_cube;
        cube.sanitize();
        let mut octa = drawn_octa;
        octa.sanitize();
        let mut blit_cube = cube;
        blit_cube.merge(&self.cube);
        blit_cube.sanitize();
        self.cube = cube;
        let mut blit_octa = octa;
        blit_octa.merge(&self.octa);
        blit_octa.sanitize();
        self.octa = octa;
        (blit_cube, blit_octa)
    }
}

/// Inside the view, the cleared rows are those of the box.
pub proof fn law_clear_region(buffer: Seq<u16>, rect: DirtyRect, value: u16, i: int)
    requires
        rect.max_x < VIEW_WIDTH,
        buffer.len() == VIEW_PIXELS,
        0 <= i < VIEW_PIXELS,
    ensures
        region_cleared(buffer, rect, value)[i] == if rect.valid() && rect.holds(column(i), row(i))
            && row(i) <= LAST_MESH_ROW {
            value
        } else {
            buffer[i]
        },
{
    let inside = has_mesh_rows(rect) && in_rows(rect, last_row(rect) - rect.min_y + 1, i);
    if rect.valid() && rect.holds(column(i), row(i)) && row(i) <= LAST_MESH_ROW {
        assert(row(i) * 320 + rect.min_x <= i <= row(i) * 320 + rect.max_x);
        assert(inside);
    }
    if inside {
        let y = choose|y: int|
            rect.min_y <= y < rect.min_y + (last_row(rect) - rect.min_y + 1) && #[trigger] (y * 320)
                + rect.min_x <= i <= y * 320 + rect.max_x;
        assert(row(i) == y);
    }
}

/// The panel after a box of the frame buffer was sent to it.
pub open spec fn panel_after(panel: Seq<u16>, buffer: Seq<u16>, rect: DirtyRect) -> Seq<u16> {
    Seq::new(
        panel.len(),
        |i: int|
            if has_mesh_rows(rect) && rect.holds(column(i), row(i)) && row(i) <= LAST_MESH_ROW {
                buffer[i]
            } else {
                panel[i]
            },
    )
}

/// The panel follows the frame buffer. Take a pixel of the meshes' rows that the
/// panel shows as the frame buffer has it, and that is background where it lies
/// in neither mesh's box. Clear the boxes, draw, and send the two boxes that
/// [`MeshBoxes::advance`] returns: both hold again.
pub proof fn law_panel_follows_frame(
    boxes: MeshBoxes,
    panel: Seq<u16>,
    shown: Seq<u16>,
    drawn: Seq<u16>,
    drawn_cube: DirtyRect,
    drawn_octa: DirtyRect,
    background: u16,
    i: int,
)
    requires
        boxes.wf(),
        panel.len() == VIEW_PIXELS,
        shown.len() == VIEW_PIXELS,
        drawn.len() == VIEW_PIXELS,
        0 <= i < VIEW_PIXELS,
        row(i) <= LAST_MESH_ROW,
        panel[i] == shown[i],
        boxes.cube.holds(column(i), row(i)) || boxes.octa.holds(column(i), row(i)) || shown[i]
            == background,
        drawn[i] == region_cleared(shown, boxes.clearing(), background)[i]
            || drawn_cube.holds(column(i), row(i)) || drawn_octa.holds(column(i), row(i)),
    ensures
        ({
            let next = boxes.moved(drawn_cube, drawn_octa);
            let sent = boxes.sending(drawn_cube, drawn_octa);
            let after = panel_after(panel_after(panel, drawn, sent.0), drawn, sent.1);
            &&& next.wf()
            &&& after[i] == drawn[i]
            &&& next.cube.holds(column(i), row(i)) || next.octa.holds(column(i), row(i))
                || drawn[i] == background
        }),
{
    let x = column(i);
    let y = row(i);
    let cube = drawn_cube.sanitized();
    let octa = drawn_octa.sanitized();
    law_clear_region(shown, boxes.cube.merged(boxes.octa), background, i);
    law_sanitize(drawn_cube, x, y);
    law_sanitize(drawn_octa, x, y);
    law_merge_covers(boxes.cube, boxes.octa, x, y);
    law_merge_covers(cube, boxes.cube, x, y);
    law_merge_covers(octa, boxes.octa, x, y);
    law_sanitize(cube.merged(boxes.cube), x, y);
    law_sanitize(octa.merged(boxes.octa), x, y);
}

/// The colours that were laid out over an area of the view are read back from it.
pub proof fn law_fill_reads_back(area: Area, pixels: Seq<u16>, colors: Seq<u16>)
    requires
        0 <= area.x,
        0 <= area.y,
        0 < area.width <= 320,
        0 < area.height <= 240,
        area.x + area.width <= VIEW_WIDTH,
        area.y + area.height <= VIEW_HEIGHT,
        colors.len() == area.width * area.height,
        pixels.len() == VIEW_PIXELS,
    ensures
        ({
            let rect = DirtyRect {
                min_x: area.x as usize,
                min_y: area.y as usize,
                max_x: (area.x + area.width - 1) as usize,
                max_y: (area.y + area.height - 1) as usize,
            };
            let filled = area.laid_out(pixels, colors, area.laid(colors.len()));
            region_pixels(filled, rect, area.height as int) == colors
        }),
{
    let rect = DirtyRect {
        min_x: area.x as usize,
        min_y: area.y as usize,
        max_x: (area.x + area.width - 1) as usize,
        max_y: (area.y + area.height - 1) as usize,
    };
    let w = area.width as int;
    let h = area.height as int;
    assert(w == area.right() - area.left());
    assert(h == area.bottom() - area.top());
    let filled = area.laid_out(pixels, colors, area.laid(colors.len()));
    assert forall|k: int| 0 <= k < w * h implies region_pixels(filled, rect, h)[k] == colors[k] by {
        lemma_multiply_divide_lt(k, w, h);
        lemma_fundamental_div_mod(k, w);
        lemma_mod_bound(k, w);
        lemma_div_pos_is_pos(k, w);
        assert(w * (k / w) == (k / w) * w) by (nonlinear_arith);
        let i = (rect.min_y + k / w) * 320 + rect.min_x + k % w;
        assert(row(i) == rect.min_y + k / w);
        assert(column(i) == rect.min_x + k % w);
        law_fill_pixels(area, pixels, colors, area.laid(colors.len()), i);
    }
    assert(region_pixels(filled, rect, h) =~= colors);
}

/// What is read of a box: the pixel in column `x` of row `y` of the frame buffer, at
/// its place in the rows of the box.
pub proof fn law_region_holds_pixels(
    buffer: Seq<u16>,
    rect: DirtyRect,
    height: int,
    x: int,
    y: int,
)
    requires
        rect.min_x <= x <= rect.max_x,
        rect.min_y <= y < rect.min_y + height,
    ensures
        ({
            let width = rect.max_x - rect.min_x + 1;
            let k = (y - rect.min_y) * width + (x - rect.min_x);
            &&& region_pixels(buffer, rect, height).len() == width * height
            &&& 0 <= k < width * height
            &&& region_pixels(buffer, rect, height)[k] == buffer[y * 320 + x]
        }),
{
    let width = rect.max_x - rect.min_x + 1;
    let k = (y - rect.min_y) * width + (x - rect.min_x);
    lemma_fundamental_div_mod_converse(k, width, y - rect.min_y, x - rect.min_x);
    assert((y - rect.min_y) * width >= 0) by (nonlinear_arith)
        requires
            y >= rect.min_y,
            width > 0,
    ;
    assert((y - rect.min_y) * width + width <= width * height) by (nonlinear_arith)
        requires
            y - rect.min_y + 1 <= height,
            width > 0,
    ;
}

/// The meshes have the rows down to 218: a box has rows of theirs exactly where it
/// holds a pixel of the view in one of them, and the last of those rows is the lowest
/// that it holds.
pub proof fn law_meshes_end_above_statistics(rect: DirtyRect, y: int)
    requires
        rect.min_x <= rect.max_x,
        rect.min_x < 320,
        0 <= y < 240,
    ensures
        rect.min_y <= y <= rect.max_y && y <= 218 ==> has_mesh_rows(rect) && y <= last_row(rect),
        has_mesh_rows(rect) ==> rect.min_y <= last_row(rect) <= rect.max_y && last_row(rect) <= 218,
        rect.min_y > 218 ==> !has_mesh_rows(rect),
{
}

/// No more is cleared or sent than needed: each edge of the box that is cleared is an
/// edge of one of the two meshes' boxes, and each edge of a box that is sent is an edge
/// of that mesh's box, now or before. Both are covered all the same.
pub proof fn law_boxes_are_tight(
    boxes: MeshBoxes,
    drawn_cube: DirtyRect,
    drawn_octa: DirtyRect,
    x: int,
    y: int,
)
    requires
        boxes.wf(),
    ensures
        spans(boxes.clearing(), boxes.cube, boxes.octa),
        boxes.cube.holds(x, y) || boxes.octa.holds(x, y) ==> boxes.clearing().holds(x, y),
        ({
            let next = boxes.moved(drawn_cube, drawn_octa);
            let sent = boxes.sending(drawn_cube, drawn_octa);
            &&& spans(sent.0, next.cube, boxes.cube)
            &&& spans(sent.1, next.octa, boxes.octa)
            &&& next.cube.holds(x, y) || boxes.cube.holds(x, y) ==> sent.0.holds(x, y)
            &&& next.octa.holds(x, y) || boxes.octa.holds(x, y) ==> sent.1.holds(x, y)
            &&& 0 <= x < 320 && 0 <= y < 240 && drawn_cube.holds(x, y) ==> next.cube.holds(x, y)
            &&& 0 <= x < 320 && 0 <= y < 240 && drawn_octa.holds(x, y) ==> next.octa.holds(x, y)
            &&& drawn_cube.valid() && next.cube.holds(x, y) ==> drawn_cube.holds(x, y)
            &&& drawn_octa.valid() && next.octa.holds(x, y) ==> drawn_octa.holds(x, y)
        }),
{
}

/// Each edge of the box is an edge of one of the two others.
pub open spec fn spans(rect: DirtyRect, a: DirtyRect, b: DirtyRect) -> bool {
    &&& rect.min_x == a.min_x || rect.min_x == b.min_x
    &&& rect.min_y == a.min_y || rect.min_y == b.min_y
    &&& rect.max_x == a.max_x || rect.max_x == b.max_x
    &&& rect.max_y == a.max_y || rect.max_y == b.max_y
}

/// What is sent of a box in the view are its pixels in the rows of the meshes, each of
/// them and no other, and as many colours as there are such pixels.
pub proof fn law_sent_area_is_the_box(buffer: Seq<u16>, rect: DirtyRect, x: int, y: int)
    requires
        rect.in_view(),
        has_mesh_rows(rect),
    ensures
        ({
            let area = sent_area(rect);
            let inside = area.x <= x < area.x + area.width && area.y <= y < area.y + area.height;
            let colors = region_pixels(buffer, rect, last_row(rect) - rect.min_y + 1);
            &&& inside <==> rect.holds(x, y) && y <= 218
            &&& colors.len() == area.width * area.height
            &&& inside ==> colors[(y - area.y) * area.width + (x - area.x)] == buffer[y * 320 + x]
        }),
{
    let height = last_row(rect) - rect.min_y + 1;
    law_region_holds_pixels(buffer, rect, height, rect.min_x as int, rect.min_y as int);
    if rect.holds(x, y) && y <= 218 {
        law_region_holds_pixels(buffer, rect, height, x, y);
    }
}

} // verus!
