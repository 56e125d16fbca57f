//! Painting layers over a frame.

use vstd::prelude::*;

verus! {

/// Pixels in a row of the frame.
pub const FRAME_WIDTH: usize = 240;

/// Rows of the frame.
pub const FRAME_HEIGHT: usize = 320;

/// Rows of the three-dimensional view, which lies above the status bar.
pub const VIEW_HEIGHT: usize = 256;

/// Pixels of the frame.
pub const FRAME_PIXELS: usize = 76800;

/// The frame, row by row from the top.
pub type Frame = [u16; FRAME_PIXELS];

/// Something that covers some pixels of the frame.
pub trait Layer {
    /// The colour in column `x` of row `y`, `None` where the layer lets through
    /// what is below it.
    spec fn at(&self, x: int, y: int) -> Option<u16>;

    /// The layer can be painted.
    spec fn wf(&self) -> bool;

    /// The colour in column `x` of row `y`.
    fn pixel(&self, x: usize, y: usize) -> (color: Option<u16>)
        requires
            self.wf(),
            x < FRAME_WIDTH,
            y < FRAME_HEIGHT,
        ensures
            color == self.at(x as int, y as int),
    ;
}

/// The columns from `left` to `right` of the rows from `top` to `bottom`, the
/// latter excluded.
#[derive(Clone, Copy, Debug, PartialEq, Eq, Structural)]
pub struct Region {
    pub left: usize,
    pub top: usize,
    pub right: usize,
    pub bottom: usize,
}

impl Region {
    /// The pixel lies in the region.
    pub open spec fn holds(self, x: int, y: int) -> bool {
        self.left <= x < self.right && self.top <= y < self.bottom
    }

    /// The region lies in the frame.
    pub open spec fn wf(self) -> bool {
        self.right <= FRAME_WIDTH && self.bottom <= FRAME_HEIGHT
    }

    /// The layer lies in the region.
    pub open spec fn bounds<L: Layer>(self, layer: &L) -> bool {
        forall|x: int, y: int|
            0 <= x < 240 && 0 <= y < 320 && !self.holds(x, y) ==> (#[trigger] layer.at(
                x,
                y,
            )) is None
    }
}

/// The colour in column `x` of row `y` once the layer lies over `below`.
pub open spec fn covered<L: Layer>(layer: &L, x: int, y: int, below: u16) -> u16 {
    match layer.at(x, y) {
        Some(color) => color,
        None => below,
    }
}

/// The pixels with the layer over them.
pub open spec fn painted<L: Layer>(pixels: Seq<u16>, layer: &L) -> Seq<u16> {
    Seq::new(pixels.len(), |i: int| covered(layer, i % 240, i / 240, pixels[i]))
}

/// Paints a layer that lies in a region.
pub fn paint<L: Layer>(frame: &mut Frame, layer: &L, region: Region)
    requires
        layer.wf(),
        region.wf(),
        region.bounds(layer),
    ensures
        final(frame)@ == painted(old(frame)@, layer),
{
    let mut y: usize = region.top;
    while y < region.bottom
        invariant
            layer.wf(),
            region.wf(),
            region.top <= y,
            frame@.len() == 76800,
            old(frame)@.len() == 76800,
            forall|i: int|
                0 <= i < 76800 ==> #[trigger] frame@[i] == if region.holds(i % 240, i / 240) && i
                    / 240 < y {
                    covered(layer, i % 240, i / 240, old(frame)@[i])
                } else {
                    old(frame)@[i]
                },
        decreases region.bottom - y,
    {
        let mut x: usize = region.left;
        while x < region.right
            invariant
                layer.wf(),
                region.wf(),
                region.top <= y < region.bottom,
                region.left <= x,
                frame@.len() == 76800,
                old(frame)@.len() == 76800,
                forall|i: int|
                    0 <= i < 76800 ==> #[trigger] frame@[i] == if region.holds(i % 240, i / 240)
                        && (i / 240 < y || i / 240 == y && i % 240 < x) {
                        covered(layer, i % 240, i / 240, old(frame)@[i])
                    } else {
                        old(frame)@[i]
                    },
            decreases region.right - x,
        {
            let at: usize = y * FRAME_WIDTH + x;
            assert(at % 240 == x && at / 240 == y);
            assert(forall|i: int|
                0 <= i && #[trigger] (i / 240) == y && i % 240 == x ==> i == at);
            if let Some(color) = layer.pixel(x, y) {
                frame[at] = color;
            }
            x += 1;
        }
        y += 1;
    }
    assert forall|i: int| 0 <= i < 76800 implies #[trigger] frame@[i] == covered(
        layer,
        i % 240,
        i / 240,
        old(frame)@[i],
    ) by {
        assert(0 <= i % 240 < 240 && 0 <= i / 240 < 320);
        if !region.holds(i % 240, i / 240) {
            assert(layer.at(i % 240, i / 240) is None);
        }
    }
    assert(frame@ =~= painted(old(frame)@, layer));
}

/// A layer is painted pixel by pixel: in column `x` of row `y` its colour covers what
/// was there, and what was there stays where the layer has no colour.
pub proof fn law_layer_covers<L: Layer>(pixels: Seq<u16>, layer: &L, x: int, y: int)
    requires
        pixels.len() == 76800,
        0 <= x < 240,
        0 <= y < 320,
    ensures
        painted(pixels, layer).len() == 76800,
        layer.at(x, y) matches Some(color) ==> painted(pixels, layer)[y * 240 + x] == color,
        layer.at(x, y) is None ==> painted(pixels, layer)[y * 240 + x] == pixels[y * 240 + x],
{
    let i = y * 240 + x;
    assert(i % 240 == x && i / 240 == y);
}

} // verus!
