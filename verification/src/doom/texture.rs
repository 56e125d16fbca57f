//! The colours of walls and sprites.

use vstd::arithmetic::div_mod::lemma_add_mod_noop;
use vstd::prelude::*;

use crate::color::{green, red, rgb, rgb565, white, yellow};
use crate::doom::game::{Sprite, HEALTH_PACK, IMP};

verus! {

/// The texel at column `x` and row `y` of a wall of kind `tile`: bricks in
/// courses of four rows, each course shifted by half a brick, a panel with two
/// lit lines and a lit slot in a dark frame, slanted warning stripes, or a steel
/// door in a frame with a handle.
pub open spec fn texel(tile: u8, x: int, y: int) -> u16 {
    let frame = x == 0 || x == 15 || y == 0 || y == 15;
    if tile == 1 {
        let shift = if y / 4 % 2 == 0 {
            0int
        } else {
            4
        };
        if y % 4 == 0 || (x + shift) % 8 == 0 {
            rgb(6, 12, 6)
        } else {
            rgb(18, 14, 2)
        }
    } else if tile == 2 {
        if y == 2 || y == 14 || x == 8 && 4 < y < 12 {
            rgb(0, 50, 25)
        } else if frame {
            rgb(2, 8, 12)
        } else {
            rgb(4, 16, 22)
        }
    } else if tile == 3 {
        if (x + y) % 6 < 3 {
            yellow()
        } else {
            rgb(2, 4, 2)
        }
    } else {
        if frame {
            rgb(16, 32, 16)
        } else if 12 <= x <= 13 && 7 <= y <= 9 {
            yellow()
        } else {
            rgb(10, 20, 10)
        }
    }
}

proof fn lemma_columns(x: int, y: int)
    ensures
        (x % 6 + y % 6) % 6 == (x + y) % 6,
        (x + 4) % 8 == 0 <==> x % 8 == 4,
{
    lemma_add_mod_noop(x, y, 6);
}

/// The texel of a wall.
pub fn wall_texel(tile: u8, tex_x: usize, tex_y: usize) -> (color: u16)
    ensures
        color == texel(tile, tex_x as int, tex_y as int),
{
    proof {
        lemma_columns(tex_x as int, tex_y as int);
    }
    let frame = tex_x == 0 || tex_x == 15 || tex_y == 0 || tex_y == 15;
    match tile {
        1 => {
            let mortar = tex_y % 4 == 0 || ((tex_y / 4) % 2 == 0 && tex_x % 8 == 0) || ((tex_y / 4)
                % 2 == 1 && tex_x % 8 == 4);
            if mortar {
                rgb565(6, 12, 6)
            } else {
                rgb565(18, 14, 2)
            }
        },
        2 => {
            if tex_y == 2 || tex_y == 14 || (tex_x == 8 && tex_y > 4 && tex_y < 12) {
                rgb565(0, 50, 25)
            } else if frame {
                rgb565(2, 8, 12)
            } else {
                rgb565(4, 16, 22)
            }
        },
        3 => {
            if (tex_x % 6 + tex_y % 6) % 6 < 3 {
                rgb565(31, 63, 0)
            } else {
                rgb565(2, 4, 2)
            }
        },
        _ => {
            if frame {
                rgb565(16, 32, 16)
            } else if tex_x >= 12 && tex_x <= 13 && tex_y >= 7 && tex_y <= 9 {
                rgb565(31, 63, 0)
            } else {
                rgb565(10, 20, 10)
            }
        },
    }
}

/// The colour of a fireball.
pub fn fireball_color() -> (color: u16)
    ensures
        color == rgb(31, 32, 0),
{
    rgb565(31, 32, 0)
}

/// The colour of a sprite before distance darkens it: white just after a hit, and
/// that of its kind otherwise.
pub open spec fn base_color(sprite: Sprite) -> u16 {
    if sprite.hit_flash > 0 {
        white()
    } else if sprite.kind == 1 {
        rgb(16, 40, 8)
    } else if sprite.kind == HEALTH_PACK {
        green()
    } else if sprite.kind == IMP {
        rgb(18, 10, 4)
    } else {
        rgb(0, 36, 31)
    }
}

/// The colour of a sprite before distance darkens it.
pub fn sprite_color(sprite: &Sprite) -> (color: u16)
    ensures
        color == base_color(*sprite),
{
    if sprite.hit_flash > 0 {
        rgb565(31, 63, 31)
    } else {
        match sprite.kind {
            1 => rgb565(16, 40, 8),
            2 => rgb565(0, 63, 0),
            3 => rgb565(18, 10, 4),
            _ => rgb565(0, 36, 31),
        }
    }
}

/// A sprite shows the eyes of an imp.
pub open spec fn shows_eyes(sprite: Sprite) -> bool {
    sprite.kind == IMP && sprite.hit_flash == 0
}

/// Whether a sprite is drawn with the eyes of an imp: an imp that was not just
/// hit.
pub fn has_eyes(sprite: &Sprite) -> (yes: bool)
    ensures
        yes == (sprite.kind == IMP && sprite.hit_flash == 0),
        yes == shows_eyes(*sprite),
{
    sprite.kind == IMP && sprite.hit_flash == 0
}

/// The colour of the pixel in column `x` and row `y` of a sprite that covers the
/// rows from `start` to `end`. Every other pixel is left out, in a checkerboard.
/// An imp's eyes are a red band from a sixth to a quarter of its height.
pub open spec fn sprite_texel(
    shaded: u16,
    eyes: bool,
    x: int,
    y: int,
    start: int,
    end: int,
) -> Option<u16> {
    if (x + y) % 2 != 0 {
        None
    } else if eyes && start + (end - start) / 6 <= y <= start + (end - start) / 4 {
        Some(red())
    } else {
        Some(shaded)
    }
}

/// The pixel of a sprite, `None` where what lies behind it shows.
pub fn sprite_pixel(
    shaded: u16,
    eyes: bool,
    x: usize,
    y: usize,
    start: usize,
    end: usize,
) -> (color: Option<u16>)
    requires
        eyes ==> start <= end,
        x + y <= usize::MAX,
    ensures
        color == sprite_texel(shaded, eyes, x as int, y as int, start as int, end as int),
{
    let pixel: u16 = if eyes && y >= start + (end - start) / 6 && y <= start + (end - start) / 4 {
        rgb565(31, 0, 0)
    } else {
        shaded
    };
    if (x + y) % 2 == 0 {
        Some(pixel)
    } else {
        None
    }
}

/// A brick wall repeats every eight texels along both axes, the course below is the
/// same one shifted by half a brick, and a brick of seven by three texels lies
/// between its joints.
pub proof fn law_bricks_are_laid(x: int, y: int)
    requires
        x >= 0,
        y >= 0,
    ensures
        texel(1, x + 8, y) == texel(1, x, y),
        texel(1, x, y + 8) == texel(1, x, y),
        texel(1, x + 4, y + 4) == texel(1, x, y),
        texel(1, x, 0) == rgb(6, 12, 6),
        1 <= y <= 3 ==> texel(1, 0, y) == rgb(6, 12, 6),
        1 <= x <= 7 && 1 <= y <= 3 ==> texel(1, x, y) == rgb(18, 14, 2),
{
}

/// The warning stripes are slanted: along a diagonal the colour stays, and along a
/// row three yellow texels follow on three dark ones.
pub proof fn law_stripes_are_slanted(x: int, y: int)
    requires
        x >= 0,
        y >= 0,
    ensures
        texel(3, x + 1, y) == texel(3, x, y + 1),
        texel(3, x + 6, y) == texel(3, x, y),
        texel(3, x + 3, y) != texel(3, x, y),
        texel(3, 0, 0) == yellow() && texel(3, 1, 0) == yellow() && texel(3, 2, 0) == yellow(),
        texel(3, 3, 0) == rgb(2, 4, 2),
{
}

/// Every wall that is neither brick, panel nor stripes is a door, and panel and door
/// have a frame of one texel around sixteen by sixteen, in which no texel of the
/// inside is painted.
pub proof fn law_other_walls_are_doors(tile: u8, x: int, y: int)
    requires
        tile != 1 && tile != 2 && tile != 3,
        0 <= x < 16,
        0 <= y < 16,
    ensures
        texel(tile, x, y) == texel(5, x, y),
        texel(tile, x, y) == rgb(16, 32, 16) <==> x == 0 || y == 0 || x == 15 || y == 15,
        texel(tile, x, y) == yellow() <==> (x == 12 || x == 13) && 7 <= y <= 9,
        texel(2, x, y) == rgb(0, 50, 25) <==> y == 2 || y == 14 || x == 8 && 5 <= y <= 11,
        texel(2, x, y) == rgb(2, 8, 12) ==> x == 0 || y == 0 || x == 15 || y == 15,
{
}

/// A sprite that was just hit is white whatever it is, and otherwise its colour tells
/// its kind and nothing else: neither its points nor its wait show.
pub proof fn law_colour_tells_kind(a: Sprite, b: Sprite)
    ensures
        a.hit_flash > 0 ==> base_color(a) == white(),
        a.hit_flash == 0 && b.hit_flash == 0 && 1 <= a.kind <= 4 && 1 <= b.kind <= 4 ==> (
        base_color(a) == base_color(b) <==> a.kind == b.kind),
        a.hit_flash == 0 ==> base_color(a) != white(),
{
}

/// What lies behind a sprite shows through every other of its pixels, in a
/// checkerboard. The others have the sprite's colour, but for an imp's eyes: they are
/// red from a sixth of its height down to a quarter of it.
pub proof fn law_sprite_is_half_seen(
    shaded: u16,
    eyes: bool,
    x: int,
    y: int,
    start: int,
    end: int,
)
    requires
        0 <= x && 0 <= y,
        start <= end,
    ensures
        ({
            let pixel = sprite_texel(shaded, eyes, x, y, start, end);
            let down = y - start;
            let high = end - start;
            &&& pixel is None <==> sprite_texel(shaded, eyes, x + 1, y, start, end) is Some
            &&& pixel is None <==> sprite_texel(shaded, eyes, x, y + 1, start, end) is Some
            &&& sprite_texel(shaded, eyes, 0, 0, start, end) is Some
            &&& pixel is Some && !eyes ==> pixel == Some(shaded)
            &&& pixel is Some && eyes && high < 6 * down + 6 && 4 * down <= high ==> pixel == Some(
                red(),
            )
            &&& pixel is Some && eyes && (high >= 6 * down + 6 || 4 * down > high) ==> pixel
                == Some(shaded)
            &&& sprite_texel(shaded, eyes, x, y, start, end) == sprite_texel(
                shaded,
                eyes,
                x + 2,
                y,
                start,
                end,
            )
        }),
{
}

/// A sprite has eyes exactly where it has the colour of an imp, so that one that is
/// white from a hit has none.
pub proof fn law_eyes_go_with_colour(sprite: Sprite)
    ensures
        shows_eyes(sprite) <==> base_color(sprite) == rgb(18, 10, 4),
        shows_eyes(sprite) ==> sprite.kind == 3,
{
}

} // verus!
