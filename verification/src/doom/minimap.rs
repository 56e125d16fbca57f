//! The map in the status bar. The panel shows the frame mirrored, so the map is
//! painted mirrored too.

use vstd::prelude::*;

use crate::color::{black, red, rgb, rgb565, yellow};
use crate::doom::frame::{Layer, Region};
use crate::doom::level::MAP;
use crate::doom::view::clamped;

verus! {

/// The player on the map: a dot of two by two pixels, and one pixel in the
/// direction in which the player looks.
#[derive(Clone, Copy, Debug, PartialEq, Eq, Structural)]
pub struct Marker {
    pub x: usize,
    pub y: usize,
    pub arrow_x: usize,
    pub arrow_y: usize,
}

impl Marker {
    /// The dot lies on the map.
    pub open spec fn wf(self) -> bool {
        &&& 186 <= self.x <= 232
        &&& 260 <= self.y <= 306
        &&& 186 <= self.arrow_x <= 233
        &&& 260 <= self.arrow_y <= 307
    }

    /// The marker of a player at a distance from the map's corner, looking along
    /// (`dx`, `dy`), all in pixels. Everything stays on the map.
    pub open spec fn placed(off_x: int, off_y: int, dx: int, dy: int) -> Marker {
        let x = clamped(186 + off_x, 186, 232);
        let y = clamped(260 + off_y, 260, 306);
        Marker {
            x: x as usize,
            y: y as usize,
            arrow_x: clamped(x - dx, 186, 233) as usize,
            arrow_y: clamped(y + dy, 260, 307) as usize,
        }
    }

    /// Places the marker.
    pub fn place(off_x: usize, off_y: usize, dx: i32, dy: i32) -> (marker: Marker)
        requires
            186 + off_x <= usize::MAX,
            260 + off_y <= usize::MAX,
            clamped(186 + off_x, 186, 232) - dx <= i32::MAX,
            clamped(260 + off_y, 260, 306) + dy <= i32::MAX,
        ensures
            marker == Marker::placed(off_x as int, off_y as int, dx as int, dy as int),
            marker.wf(),
    {
        let x: usize = if 186 + off_x > 232 {
            232
        } else {
            186 + off_x
        };
        let y: usize = if 260 + off_y > 306 {
            306
        } else {
            260 + off_y
        };
        let ax: i32 = x as i32 - dx;
        let ay: i32 = y as i32 + dy;
        Marker {
            x,
            y,
            arrow_x: if ax < 186 {
                186
            } else if ax > 233 {
                233
            } else {
                ax as usize
            },
            arrow_y: if ay < 260 {
                260
            } else if ay > 307 {
                307
            } else {
                ay as usize
            },
        }
    }
}

/// The colour of a cell on the map.
pub open spec fn cell_color(tile: u8) -> u16 {
    if tile == 0 {
        black()
    } else if tile == 1 {
        rgb(14, 28, 14)
    } else if tile == 2 {
        rgb(20, 4, 4)
    } else if tile == 3 {
        rgb(3, 12, 22)
    } else {
        rgb(16, 16, 8)
    }
}

/// The map and the player on it, with three by three pixels for a cell.
pub struct Minimap {
    pub marker: Marker,
}

impl Minimap {
    /// Where it lies.
    pub fn region(&self) -> (region: Region)
        requires
            self.wf(),
        ensures
            region.wf(),
            region.bounds(self),
    {
        Region { left: 186, top: 260, right: 234, bottom: 308 }
    }
}

impl Layer for Minimap {
    open spec fn at(&self, x: int, y: int) -> Option<u16> {
        let m = self.marker;
        if x == m.arrow_x && y == m.arrow_y {
            Some(yellow())
        } else if m.x <= x <= m.x + 1 && m.y <= y <= m.y + 1 {
            Some(red())
        } else if 186 <= x < 234 && 260 <= y < 308 {
            Some(cell_color(MAP@[(y - 260) / 3 * 16 + (15 - (x - 186) / 3)]))
        } else {
            None
        }
    }

    open spec fn wf(&self) -> bool {
        self.marker.wf()
    }

    fn pixel(&self, x: usize, y: usize) -> (color: Option<u16>) {
        let m = self.marker;
        if x == m.arrow_x && y == m.arrow_y {
            Some(rgb565(31, 63, 0))
        } else if m.x <= x && x <= m.x + 1 && m.y <= y && y <= m.y + 1 {
            Some(rgb565(31, 0, 0))
        } else if 186 <= x && x < 234 && 260 <= y && y < 308 {
            let tile: u8 = MAP[(y - 260) / 3 * 16 + (15 - (x - 186) / 3)];
            Some(
                match tile {
                    0 => rgb565(0, 0, 0),
                    1 => rgb565(14, 28, 14),
                    2 => rgb565(20, 4, 4),
                    3 => rgb565(3, 12, 22),
                    _ => rgb565(16, 16, 8),
                },
            )
        } else {
            None
        }
    }
}

/// The map shows the level, mirrored from left to right: each cell is a square of
/// three by three pixels in the colour of its tile, but for the pixels of the
/// player.
pub proof fn law_minimap_shows_level(map: Minimap, x: int, y: int, dx: int, dy: int)
    requires
        0 <= x < 16,
        0 <= y < 16,
        0 <= dx < 3,
        0 <= dy < 3,
    ensures
        ({
            let m = map.marker;
            let px = 186 + (15 - x) * 3 + dx;
            let py = 260 + y * 3 + dy;
            !(px == m.arrow_x && py == m.arrow_y) && !(m.x <= px <= m.x + 1 && m.y <= py <= m.y
                + 1) ==> map.at(px, py) == Some(cell_color(MAP@[y * 16 + x]))
        }),
{
}

/// The marker follows the player: where the player is on the map and does not look
/// past its edges, the dot and the arrow are where they belong.
pub proof fn law_marker_follows(off_x: int, off_y: int, dx: int, dy: int)
    requires
        0 <= off_x <= 46,
        0 <= off_y <= 46,
        0 <= off_x - dx <= 47,
        0 <= off_y + dy <= 47,
    ensures
        ({
            let m = Marker::placed(off_x, off_y, dx, dy);
            &&& m.x == 186 + off_x && m.y == 260 + off_y
            &&& m.arrow_x == m.x - dx && m.arrow_y == m.y + dy
        }),
{
}

/// The player on the map: the pixel of the direction is yellow, the other pixels of
/// the dot are red, and outside the map nothing is painted.
pub proof fn law_player_is_marked(map: Minimap, dx: int, dy: int, x: int, y: int)
    requires
        map.marker.wf(),
        0 <= dx < 2,
        0 <= dy < 2,
    ensures
        ({
            let m = map.marker;
            &&& map.at(m.arrow_x as int, m.arrow_y as int) == Some(yellow())
            &&& m.x + dx != m.arrow_x || m.y + dy != m.arrow_y ==> map.at(m.x + dx, m.y + dy)
                == Some(red())
            &&& map.at(x, y) is Some <==> 186 <= x < 234 && 260 <= y < 308
        }),
{
}

/// A player beyond the map is marked at its edge, and so is a direction that leads
/// beyond it: from the edge on, going farther changes nothing.
pub proof fn law_marker_stops_at_edges(off_x: int, off_y: int, dx: int, dy: int)
    requires
        off_x >= 0,
        off_y >= 0,
    ensures
        ({
            let m = Marker::placed(off_x, off_y, dx, dy);
            &&& m.wf()
            &&& off_x <= 46 ==> m.x == 186 + off_x
            &&& off_y <= 46 ==> m.y == 260 + off_y
            &&& 186 <= m.x - dx <= 233 ==> m.arrow_x == m.x - dx
            &&& 260 <= m.y + dy <= 307 ==> m.arrow_y == m.y + dy
            &&& off_x >= 46 ==> m == Marker::placed(46, off_y, dx, dy)
            &&& off_y >= 46 ==> m == Marker::placed(off_x, 46, dx, dy)
            &&& m.arrow_x < m.x ==> dx > 0
            &&& m.arrow_x > m.x ==> dx < 0
            &&& m.arrow_y > m.y ==> dy > 0
            &&& m.arrow_y < m.y ==> dy < 0
            &&& m.x - dx < 186 ==> m.arrow_x == 186
            &&& m.x - dx > 233 ==> m.arrow_x == 233
            &&& m.y + dy < 260 ==> m.arrow_y == 260
            &&& m.y + dy > 307 ==> m.arrow_y == 307
        }),
{
}

} // verus!
