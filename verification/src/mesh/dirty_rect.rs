//! The bounding box of what was drawn in a frame.

use vstd::prelude::*;

verus! {

/// Columns of the landscape view.
pub const VIEW_WIDTH: usize = 320;

/// Rows of the landscape view.
pub const VIEW_HEIGHT: usize = 240;

/// Pixels of the landscape view.
pub const VIEW_PIXELS: usize = 76800;

/// The smaller of two numbers.
pub open spec fn min(a: usize, b: usize) -> usize {
    if a <= b {
        a
    } else {
        b
    }
}

/// The larger of two numbers.
pub open spec fn max(a: usize, b: usize) -> usize {
    if a >= b {
        a
    } else {
        b
    }
}

/// A box of pixels, all four edges inclusive. It holds no pixel where a lower
/// edge lies beyond the upper one.
#[derive(Clone, Copy)]
pub struct DirtyRect {
    pub min_x: usize,
    pub min_y: usize,
    pub max_x: usize,
    pub max_y: usize,
}

impl DirtyRect {
    /// The box holds the pixel in column `x` of row `y`.
    pub open spec fn holds(self, x: int, y: int) -> bool {
        self.min_x <= x <= self.max_x && self.min_y <= y <= self.max_y
    }

    /// The box holds a pixel, and starts inside the view.
    pub open spec fn valid(self) -> bool {
        self.min_x <= self.max_x && self.min_y <= self.max_y && self.min_x < VIEW_WIDTH
            && self.min_y < VIEW_HEIGHT
    }

    /// No edge lies outside the view, but for the lower edges of an empty box.
    pub open spec fn in_view(self) -> bool {
        self.min_x <= VIEW_WIDTH && self.min_y <= VIEW_HEIGHT && self.max_x < VIEW_WIDTH
            && self.max_y < VIEW_HEIGHT
    }

    /// The box that holds nothing.
    pub open spec fn nothing() -> DirtyRect {
        DirtyRect { min_x: VIEW_WIDTH, min_y: VIEW_HEIGHT, max_x: 0, max_y: 0 }
    }

    /// The box grown to hold a pixel.
    pub open spec fn with_point(self, x: usize, y: usize) -> DirtyRect {
        DirtyRect {
            min_x: min(self.min_x, x),
            min_y: min(self.min_y, y),
            max_x: max(self.max_x, x),
            max_y: max(self.max_y, y),
        }
    }

    /// The box grown to hold another one.
    pub open spec fn merged(self, other: DirtyRect) -> DirtyRect {
        DirtyRect {
            min_x: min(self.min_x, other.min_x),
            min_y: min(self.min_y, other.min_y),
            max_x: max(self.max_x, other.max_x),
            max_y: max(self.max_y, other.max_y),
        }
    }

    /// Every edge moved into the view, and an upper edge below its lower edge
    /// moved up to it.
    pub open spec fn sanitized(self) -> DirtyRect {
        let min_x = min(self.min_x, (VIEW_WIDTH - 1) as usize);
        let min_y = min(self.min_y, (VIEW_HEIGHT - 1) as usize);
        DirtyRect {
            min_x,
            min_y,
            max_x: max(min_x, min(self.max_x, (VIEW_WIDTH - 1) as usize)),
            max_y: max(min_y, min(self.max_y, (VIEW_HEIGHT - 1) as usize)),
        }
    }

    /// The box that holds nothing.
    pub fn empty() -> (rect: Self)
        ensures
            rect == DirtyRect::nothing(),
    {
        DirtyRect { min_x: VIEW_WIDTH, min_y: VIEW_HEIGHT, max_x: 0, max_y: 0 }
    }

    /// Whether there is anything in the box, and the box starts in the view.
    pub fn is_valid(&self) -> (valid: bool)
        ensures
            valid == self.valid(),
    {
        self.min_x <= self.max_x && self.min_y <= self.max_y && self.min_x < VIEW_WIDTH
            && self.min_y < VIEW_HEIGHT
    }

    /// Grows the box to hold a pixel.
    pub fn add_point(&mut self, x: usize, y: usize)
        ensures
            *final(self) == old(self).with_point(x, y),
    {
        if x < self.min_x {
            self.min_x = x;
        }
        if y < self.min_y {
            self.min_y = y;
        }
        if x > self.max_x {
            self.max_x = x;
        }
        if y > self.max_y {
            self.max_y = y;
        }
    }

    /// Grows the box to hold another one.
    pub fn merge(&mut self, other: &DirtyRect)
        ensures
            *final(self) == old(self).merged(*other),
    {
        if other.min_x < self.min_x {
            self.min_x = other.min_x;
        }
        if other.min_y < self.min_y {
            self.min_y = other.min_y;
        }
        if other.max_x > self.max_x {
            self.max_x = other.max_x;
        }
        if other.max_y > self.max_y {
            self.max_y = other.max_y;
        }
    }

    /// Moves the box into the view. An empty box becomes one pixel.
    pub fn sanitize(&mut self)
        ensures
            *final(self) == old(self).sanitized(),
    {
        if self.min_x >= VIEW_WIDTH {
            self.min_x = VIEW_WIDTH - 1;
        }
        if self.min_y >= VIEW_HEIGHT {
            self.min_y = VIEW_HEIGHT - 1;
        }
        if self.max_x >= VIEW_WIDTH {
            self.max_x = VIEW_WIDTH - 1;
        }
        if self.max_y >= VIEW_HEIGHT {
            self.max_y = VIEW_HEIGHT - 1;
        }
        if self.max_x < self.min_x {
            self.max_x = self.min_x;
        }
        if self.max_y < self.min_y {
            self.max_y = self.min_y;
        }
    }
}

/// The empty box is not valid and holds no pixel.
pub proof fn law_empty_holds_nothing(x: int, y: int)
    ensures
        !DirtyRect::nothing().valid(),
        !DirtyRect::nothing().holds(x, y),
{
}

/// A box that has grown by a pixel holds that pixel and all it held before.
pub proof fn law_add_point_covers(rect: DirtyRect, x: usize, y: usize, px: int, py: int)
    ensures
        rect.with_point(x, y).holds(x as int, y as int),
        rect.holds(px, py) ==> rect.with_point(x, y).holds(px, py),
{
}

/// The smallest box that holds all of the points, grown from the empty one.
pub open spec fn bounding_box(points: Seq<(usize, usize)>) -> DirtyRect
    decreases points.len(),
{
    if points.len() == 0 {
        DirtyRect::nothing()
    } else {
        bounding_box(points.drop_last()).with_point(points.last().0, points.last().1)
    }
}

/// Growing the empty box by points of the view gives the smallest box that holds
/// them: each is in it, and any box that holds them all holds every pixel of it.
pub proof fn law_box_is_tight(points: Seq<(usize, usize)>, other: DirtyRect)
    requires
        forall|i: int|
            0 <= i < points.len() ==> (#[trigger] points[i]).0 < VIEW_WIDTH && points[i].1
                < VIEW_HEIGHT,
    ensures
        forall|i: int|
            0 <= i < points.len() ==> bounding_box(points).holds(
                (#[trigger] points[i]).0 as int,
                points[i].1 as int,
            ),
        (forall|i: int|
            0 <= i < points.len() ==> other.holds(
                (#[trigger] points[i]).0 as int,
                points[i].1 as int,
            )) ==> forall|x: int, y: int| #[trigger]
            bounding_box(points).holds(x, y) ==> other.holds(x, y),
        bounding_box(points).in_view(),
    decreases points.len(),
{
    if points.len() > 0 {
        let rest = points.drop_last();
        law_box_is_tight(rest, other);
        assert(forall|i: int| 0 <= i < rest.len() ==> rest[i] == points[i]);
        assert(points.last() == points[points.len() - 1]);
        if rest.len() == 0 {
            assert(bounding_box(rest) == DirtyRect::nothing());
        } else {
            assert(rest[0] == points[0]);
            let b = bounding_box(rest);
            assert(b.holds(rest[0].0 as int, rest[0].1 as int));
            assert(b.holds(b.min_x as int, b.min_y as int));
            assert(b.holds(b.max_x as int, b.max_y as int));
        }
    }
}

/// Merging is commutative and associative, a box merged with itself stays, and a
/// box merged with the empty one stays.
pub proof fn law_merge(a: DirtyRect, b: DirtyRect, c: DirtyRect)
    ensures
        a.merged(b) == b.merged(a),
        a.merged(b).merged(c) == a.merged(b.merged(c)),
        a.merged(a) == a,
        a.min_x <= VIEW_WIDTH && a.min_y <= VIEW_HEIGHT ==> a.merged(DirtyRect::nothing()) == a,
{
}

/// A merged box holds what either of the two held.
pub proof fn law_merge_covers(a: DirtyRect, b: DirtyRect, x: int, y: int)
    ensures
        a.holds(x, y) || b.holds(x, y) ==> a.merged(b).holds(x, y),
{
}

/// A sanitized box is valid and lies in the view; one that was so already stays
/// as it is; and no pixel of the view is lost.
pub proof fn law_sanitize(rect: DirtyRect, x: int, y: int)
    ensures
        rect.sanitized().valid(),
        rect.sanitized().in_view(),
        rect.valid() && rect.in_view() ==> rect.sanitized() == rect,
        rect.sanitized().sanitized() == rect.sanitized(),
        0 <= x < VIEW_WIDTH && 0 <= y < VIEW_HEIGHT && rect.holds(x, y) ==> rect.sanitized().holds(
            x,
            y,
        ),
{
}

/// A merged box is the smallest that holds both: any box that holds what the two
/// valid ones hold also holds it.
pub proof fn law_merge_is_tight(a: DirtyRect, b: DirtyRect, other: DirtyRect)
    requires
        a.min_x <= a.max_x && a.min_y <= a.max_y,
        b.min_x <= b.max_x && b.min_y <= b.max_y,
        forall|x: int, y: int| #[trigger] a.holds(x, y) ==> other.holds(x, y),
        forall|x: int, y: int| #[trigger] b.holds(x, y) ==> other.holds(x, y),
    ensures
        forall|x: int, y: int| #[trigger] a.merged(b).holds(x, y) ==> other.holds(x, y),
{
    assert(a.holds(a.min_x as int, a.min_y as int));
    assert(a.holds(a.max_x as int, a.max_y as int));
    assert(b.holds(b.min_x as int, b.min_y as int));
    assert(b.holds(b.max_x as int, b.max_y as int));
}

/// A box is valid exactly where it holds a pixel of the view.
pub proof fn law_valid_holds_a_pixel(rect: DirtyRect)
    ensures
        rect.valid() <==> exists|x: int, y: int|
            #![trigger rect.holds(x, y)]
            0 <= x < 320 && 0 <= y < 240 && rect.holds(x, y),
{
    if rect.valid() {
        assert(rect.holds(rect.min_x as int, rect.min_y as int));
    }
}

/// Moving a valid box into the view adds nothing to it: it then holds those of its
/// pixels that lie in the view, and no other.
pub proof fn law_sanitize_adds_nothing(rect: DirtyRect, x: int, y: int)
    requires
        rect.valid(),
    ensures
        rect.sanitized().holds(x, y) <==> rect.holds(x, y) && 0 <= x < 320 && 0 <= y < 240,
{
}

} // verus!
