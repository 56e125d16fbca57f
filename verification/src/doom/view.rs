//! What is painted over the three-dimensional view: the crosshair, the weapon,
//! and the screen when the player is hurt or dead.

use vstd::prelude::*;

use crate::color::{green, red, rgb, rgb565, yellow};
use crate::doom::frame::{Layer, Region};

verus! {

/// The distance between two numbers.
pub open spec fn apart(a: int, b: int) -> int {
    if a <= b {
        b - a
    } else {
        a - b
    }
}

fn distance(a: usize, b: usize) -> (d: usize)
    ensures
        d == apart(a as int, b as int),
{
    if a <= b {
        b - a
    } else {
        a - b
    }
}

/// The nearest number to `v` from `low` to `high`.
pub open spec fn clamped(v: int, low: int, high: int) -> int {
    if v < low {
        low
    } else if v > high {
        high
    } else {
        v
    }
}

/// A cross at the middle of the view, with arms of four pixels and an open
/// centre.
pub struct Crosshair;

impl Crosshair {
    /// Where it lies.
    pub fn region() -> (region: Region)
        ensures
            region.wf(),
            region.bounds(&Crosshair),
    {
        Region { left: 116, top: 124, right: 125, bottom: 133 }
    }
}

impl Layer for Crosshair {
    open spec fn at(&self, x: int, y: int) -> Option<u16> {
        if y == 128 && 1 <= apart(x, 120) <= 4 || x == 120 && 1 <= apart(y, 128) <= 4 {
            Some(green())
        } else {
            None
        }
    }

    open spec fn wf(&self) -> bool {
        true
    }

    fn pixel(&self, x: usize, y: usize) -> (color: Option<u16>) {
        let dx: usize = distance(x, 120);
        let dy: usize = distance(y, 128);
        if (y == 128 && 1 <= dx && dx <= 4) || (x == 120 && 1 <= dy && dy <= 4) {
            Some(rgb565(0, 63, 0))
        } else {
            None
        }
    }
}

/// The top row of the weapon: it bobs, and recoils by eight rows when fired.
pub open spec fn weapon_row(bob: int, firing: bool) -> int {
    clamped(
        215 + bob + if firing {
            8int
        } else {
            0
        },
        180,
        248,
    )
}

/// The top row of the weapon.
pub fn weapon_top(bob: i32, firing: bool) -> (top: usize)
    requires
        215 + bob + (if firing {
            8int
        } else {
            0
        }) <= i32::MAX,
    ensures
        top == weapon_row(bob as int, firing),
        180 <= top <= 248,
{
    let recoil: i32 = if firing {
        8
    } else {
        0
    };
    let row: i32 = 215 + bob + recoil;
    if row < 180 {
        180
    } else if row > 248 {
        248
    } else {
        row as usize
    }
}

/// The weapon at the bottom of the view: it is centred on a column and widens
/// downward by a pixel on each side every two rows. Every third column is dark.
pub struct Weapon {
    pub center: i32,
    pub top: usize,
}

impl Weapon {
    /// Half of the width at row `y`.
    pub open spec fn half_width(self, y: int) -> int {
        12 + (y - self.top) / 2
    }

    /// Where it lies.
    pub fn region(&self) -> (region: Region)
        requires
            self.wf(),
        ensures
            region.wf(),
            region.bounds(self),
    {
        let half: i32 = 12 + ((255 - self.top) / 2) as i32;
        let left: i32 = self.center - half;
        let right: i32 = self.center + half;
        Region {
            left: if left < 0 {
                0
            } else if left > 239 {
                239
            } else {
                left as usize
            },
            top: self.top,
            right: if right < 0 {
                0
            } else if right > 239 {
                239
            } else {
                right as usize
            },
            bottom: 256,
        }
    }
}

impl Layer for Weapon {
    open spec fn at(&self, x: int, y: int) -> Option<u16> {
        let half = self.half_width(y);
        if self.top <= y < 256 && clamped(self.center - half, 0, 239) <= x < clamped(
            self.center + half,
            0,
            239,
        ) {
            Some(
                if x % 3 == 0 {
                    rgb(5, 5, 5)
                } else {
                    rgb(12, 14, 16)
                },
            )
        } else {
            None
        }
    }

    open spec fn wf(&self) -> bool {
        &&& self.top < 256
        &&& i32::MIN <= self.center - self.half_width(255)
        &&& self.center + self.half_width(255) <= i32::MAX
    }

    fn pixel(&self, x: usize, y: usize) -> (color: Option<u16>) {
        if y < self.top || y >= 256 {
            return None;
        }
        let half: i32 = 12 + ((y - self.top) / 2) as i32;
        let left: i32 = self.center - half;
        let right: i32 = self.center + half;
        let column: i32 = x as i32;
        if left <= column && column < right && x < 239 {
            if x % 3 == 0 {
                Some(rgb565(5, 5, 5))
            } else {
                Some(rgb565(12, 14, 16))
            }
        } else {
            None
        }
    }
}

/// The flash at the muzzle of a weapon: a diamond of sixteen rows, yellow and
/// orange by turns, twelve rows above the weapon's top.
pub struct MuzzleFlash {
    pub center: i32,
    pub top: usize,
}

impl MuzzleFlash {
    /// The first row of the flash.
    pub open spec fn first_row(self) -> int {
        clamped(self.top - 12, 150, 220)
    }

    fn first(&self) -> (row: usize)
        requires
            self.wf(),
        ensures
            row == self.first_row(),
    {
        let row: usize = self.top - 12;
        if row < 150 {
            150
        } else if row > 220 {
            220
        } else {
            row
        }
    }

    /// Where it lies.
    pub fn region(&self) -> (region: Region)
        requires
            self.wf(),
        ensures
            region.wf(),
            region.bounds(self),
    {
        let first: usize = self.first();
        Region {
            left: if self.center < 8 {
                0
            } else {
                (self.center - 8) as usize
            },
            top: first,
            right: if self.center + 9 > 240 {
                240
            } else {
                (self.center + 9) as usize
            },
            bottom: first + 16,
        }
    }
}

impl Layer for MuzzleFlash {
    open spec fn at(&self, x: int, y: int) -> Option<u16> {
        let dy = y - self.first_row();
        if 0 <= dy < 16 && apart(x, self.center as int) <= 8 - apart(dy, 8) {
            Some(
                if dy % 2 == 0 {
                    yellow()
                } else {
                    rgb(31, 32, 0)
                },
            )
        } else {
            None
        }
    }

    open spec fn wf(&self) -> bool {
        &&& 12 <= self.top
        &&& 0 <= self.center <= 240
    }

    fn pixel(&self, x: usize, y: usize) -> (color: Option<u16>) {
        let first: usize = self.first();
        if y < first || y - first >= 16 {
            return None;
        }
        let dy: usize = y - first;
        let radius: usize = 8 - distance(dy, 8);
        if distance(x, self.center as usize) <= radius {
            if dy % 2 == 0 {
                Some(rgb565(31, 63, 0))
            } else {
                Some(rgb565(31, 32, 0))
            }
        } else {
            None
        }
    }
}

/// A red mesh: every other pixel of the view, in a checkerboard, over all of it or
/// only within twelve pixels of its edges.
pub struct RedMesh {
    pub edges_only: bool,
}

impl RedMesh {
    /// Where it lies.
    pub fn region(&self) -> (region: Region)
        ensures
            region.wf(),
            region.bounds(self),
    {
        Region { left: 0, top: 0, right: 240, bottom: 256 }
    }
}

impl Layer for RedMesh {
    open spec fn at(&self, x: int, y: int) -> Option<u16> {
        let edge = y < 12 || y >= 244 || x < 12 || x >= 228;
        if y < 256 && (edge || !self.edges_only) && (x + y) % 2 == 0 {
            Some(red())
        } else {
            None
        }
    }

    open spec fn wf(&self) -> bool {
        true
    }

    fn pixel(&self, x: usize, y: usize) -> (color: Option<u16>) {
        let edge = y < 12 || y >= 244 || x < 12 || x >= 228;
        if y < 256 && (edge || !self.edges_only) && (x + y) % 2 == 0 {
            Some(rgb565(31, 0, 0))
        } else {
            None
        }
    }
}

/// What is painted over the view stays in it: none of it reaches the status bar.
pub proof fn law_view_stays_above_bar(
    weapon: Weapon,
    flash: MuzzleFlash,
    mesh: RedMesh,
    x: int,
    y: int,
)
    requires
        y >= 256,
    ensures
        Crosshair.at(x, y) is None,
        weapon.at(x, y) is None,
        flash.at(x, y) is None,
        mesh.at(x, y) is None,
{
}

/// The weapon's row follows its bob between its bounds, and a shot moves it down by
/// eight rows as far as the lower bound.
pub proof fn law_weapon_bobs(bob: int, firing: bool)
    ensures
        180 <= weapon_row(bob, firing) <= 248,
        weapon_row(bob, firing) <= weapon_row(bob + 1, firing) <= weapon_row(bob, firing) + 1,
        -35 <= bob <= 33 ==> weapon_row(bob, false) == 215 + bob,
        weapon_row(bob, true) == weapon_row(bob + 8, false),
        bob < -35 ==> weapon_row(bob, false) == 180,
        bob > 33 ==> weapon_row(bob, false) == 248,
{
}

/// The weapon stands on the view's lower edge and widens downward: its first row is
/// 24 pixels wide, two rows farther down a pixel is added on each side, and of every
/// three columns one is dark.
pub proof fn law_weapon_widens(weapon: Weapon, x: int, y: int)
    requires
        0 <= x < 239,
        weapon.top <= y < 256,
    ensures
        weapon.at(x, y) is Some <==> 2 * (weapon.center - 12 - x) <= y - weapon.top && 2 * (x - 11
            - weapon.center) <= y - weapon.top,
        y + 1 < 256 && weapon.at(x, y) is Some ==> weapon.at(x, y + 1) == weapon.at(x, y),
        weapon.at(x, y) matches Some(color) ==> (color == rgb(5, 5, 5) <==> x % 3 == 0) && (color
            == rgb(12, 14, 16) <==> x % 3 != 0),
        weapon.at(239, y) is None,
        weapon.at(x, weapon.top - 1) is None,
{
}

/// The flash at the muzzle is a diamond of eight pixels around its middle, which lies
/// four rows above the weapon's top, but stays in the view. Its rows are yellow and
/// orange by turns.
pub proof fn law_flash_is_a_diamond(flash: MuzzleFlash, x: int, y: int)
    ensures
        ({
            let middle = flash.first_row() + 8;
            &&& 162 <= flash.top <= 232 ==> middle == flash.top - 4
            &&& flash.top < 162 ==> middle == 158
            &&& flash.top > 232 ==> middle == 228
            &&& flash.at(x, y) is Some <==> {
                &&& middle - 8 <= y <= middle + 7
                &&& x - flash.center + y - middle <= 8
                &&& flash.center - x + y - middle <= 8
                &&& x - flash.center + middle - y <= 8
                &&& flash.center - x + middle - y <= 8
            }
            &&& flash.at(x, y) matches Some(color) ==> (color == yellow() <==> (y - middle) % 2
                == 0) && (color == rgb(31, 32, 0) <==> (y - middle) % 2 != 0)
        }),
{
}

/// The crosshair is the same from all four sides, and its centre is open.
pub proof fn law_crosshair_is_even(dx: int, dy: int)
    ensures
        Crosshair.at(120 + dx, 128 + dy) == Crosshair.at(120 - dx, 128 + dy),
        Crosshair.at(120 + dx, 128 + dy) == Crosshair.at(120 + dx, 128 - dy),
        Crosshair.at(120 + dx, 128 + dy) == Crosshair.at(120 + dy, 128 + dx),
        Crosshair.at(120, 128) is None,
        Crosshair.at(120 + dx, 128 + dy) is Some ==> dx == 0 || dy == 0,
        1 <= dx <= 4 ==> Crosshair.at(120 + dx, 128) == Some(green()),
        dx > 4 ==> Crosshair.at(120 + dx, 128) is None,
{
}

/// The mesh leaves every other pixel, so that what lies below shows. The one at the
/// edges covers twelve pixels from each edge of the view as the full one does, and
/// none inside.
pub proof fn law_mesh_is_half_seen(x: int, y: int)
    requires
        0 <= x < 240,
        0 <= y < 256,
    ensures
        ({
            let full = RedMesh { edges_only: false };
            let edges = RedMesh { edges_only: true };
            &&& full.at(x, y) is Some <==> (x + y) % 2 == 0
            &&& full.at(x, y) matches Some(color) ==> color == red()
            &&& 12 <= x < 228 && 12 <= y < 244 ==> edges.at(x, y) is None
            &&& !(12 <= x < 228 && 12 <= y < 244) ==> edges.at(x, y) == full.at(x, y)
        }),
{
}

} // verus!
