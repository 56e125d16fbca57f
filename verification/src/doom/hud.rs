//! The status bar, and everything that is painted over a finished view.

use vstd::prelude::*;
use vstd::string::*;

use embedded_3dgfx::hud::format_u16_dec;

use crate::color::{black, red, rgb, rgb565, white, yellow};
use crate::doom::frame::{
    covered, paint, painted, Frame, Layer, Region, FRAME_HEIGHT, FRAME_WIDTH,
};
use crate::doom::game::{Game, GameState};
use crate::doom::minimap::{Marker, Minimap};
use crate::doom::view::{weapon_row, weapon_top, Crosshair, MuzzleFlash, RedMesh, Weapon};
use crate::text::{draw_text, text_drawn};

verus! {

/// The last `n` decimal digits of `value`, with zeros in front where it has fewer.
pub open spec fn last_digits(value: nat, n: nat) -> Seq<char>
    decreases n,
{
    if n == 0 {
        Seq::empty()
    } else {
        last_digits(value / 10, (n - 1) as nat).push((48 + value % 10) as char)
    }
}

/// `format_u16_dec` of `embedded-3dgfx`, on a buffer of `digits` bytes: the last
/// `digits` decimal digits of the value, with zeros in front.
#[verifier::external_body]
fn format_u16(value: u16, digits: usize) -> (text: String)
    requires
        digits <= 100,
    ensures
        text@ == last_digits(value as nat, digits as nat),
{
    let mut buf = vec![b' '; digits];
    format_u16_dec(value, &mut buf, digits).to_string()
}

/// The background of the status bar, with a red line along its top.
pub struct Bar;

impl Bar {
    /// Where it lies.
    pub fn region() -> (region: Region)
        ensures
            region.wf(),
            region.bounds(&Bar),
    {
        Region { left: 0, top: 256, right: 240, bottom: 320 }
    }
}

impl Layer for Bar {
    open spec fn at(&self, x: int, y: int) -> Option<u16> {
        if y < 256 {
            None
        } else if y == 256 {
            Some(red())
        } else {
            Some(rgb(4, 6, 8))
        }
    }

    open spec fn wf(&self) -> bool {
        true
    }

    fn pixel(&self, x: usize, y: usize) -> (color: Option<u16>) {
        if y < 256 {
            None
        } else if y == 256 {
            Some(rgb565(31, 0, 0))
        } else {
            Some(rgb565(4, 6, 8))
        }
    }
}

/// Where the face looks.
#[derive(Clone, Copy, Debug, PartialEq, Eq, Structural)]
pub enum Glance {
    Left,
    Ahead,
    Right,
}

/// What the face shows.
#[derive(Clone, Copy, Debug, PartialEq, Eq, Structural)]
pub struct Face {
    pub glance: Glance,
    pub dead: bool,
    pub firing: bool,
    pub hurt: bool,
}

impl Face {
    /// How far the pupils are shifted.
    pub open spec fn shift(self) -> int {
        match self.glance {
            Glance::Left => -2,
            Glance::Ahead => 0,
            Glance::Right => 2,
        }
    }

    /// The mouth's first column, the column after its last, and its colour: shut
    /// when dead, teeth when firing, open when hurt.
    pub open spec fn mouth(self) -> (int, int, u16) {
        if self.dead {
            (110, 130, black())
        } else if self.firing {
            (114, 126, white())
        } else if self.hurt {
            (112, 128, rgb(31, 10, 0))
        } else {
            (114, 126, red())
        }
    }

    /// Where it lies.
    pub fn region(&self) -> (region: Region)
        ensures
            region.wf(),
            region.bounds(self),
    {
        Region { left: 106, top: 260, right: 134, bottom: 314 }
    }
}

impl Layer for Face {
    open spec fn at(&self, x: int, y: int) -> Option<u16> {
        let mouth = self.mouth();
        if y == 278 && (x == 113 + self.shift() || x == 123 + self.shift()) {
            Some(black())
        } else if y == 278 && (112 <= x < 116 || 122 <= x < 126) {
            Some(
                if self.dead || self.hurt || self.firing {
                    red()
                } else {
                    white()
                },
            )
        } else if y == 294 && mouth.0 <= x < mouth.1 {
            Some(mouth.2)
        } else if 268 <= y < 304 && 110 <= x < 130 {
            Some(rgb(28, 20, 16))
        } else if 260 <= y < 314 && 106 <= x < 134 {
            Some(rgb(18, 14, 12))
        } else {
            None
        }
    }

    open spec fn wf(&self) -> bool {
        true
    }

    fn pixel(&self, x: usize, y: usize) -> (color: Option<u16>) {
        let left_pupil: usize = match self.glance {
            Glance::Left => 111,
            Glance::Ahead => 113,
            Glance::Right => 115,
        };
        let (mouth_left, mouth_right, mouth_color): (usize, usize, u16) = if self.dead {
            (110, 130, rgb565(0, 0, 0))
        } else if self.firing {
            (114, 126, rgb565(31, 63, 31))
        } else if self.hurt {
            (112, 128, rgb565(31, 10, 0))
        } else {
            (114, 126, rgb565(31, 0, 0))
        };
        if y == 278 && (x == left_pupil || x == left_pupil + 10) {
            Some(rgb565(0, 0, 0))
        } else if y == 278 && ((112 <= x && x < 116) || (122 <= x && x < 126)) {
            if self.dead || self.hurt || self.firing {
                Some(rgb565(31, 0, 0))
            } else {
                Some(rgb565(31, 63, 31))
            }
        } else if y == 294 && mouth_left <= x && x < mouth_right {
            Some(mouth_color)
        } else if 268 <= y && y < 304 && 110 <= x && x < 130 {
            Some(rgb565(28, 20, 16))
        } else if 260 <= y && y < 314 && 106 <= x && x < 134 {
            Some(rgb565(18, 14, 12))
        } else {
            None
        }
    }
}

/// What is shown over the view and in the status bar.
#[derive(Clone, Copy, Debug, PartialEq, Eq, Structural)]
pub struct Overlay {
    pub ammo: u16,
    pub health: u16,
    /// Something was picked up a moment ago.
    pub picked_up: bool,
    /// The player was hit a moment ago.
    pub hurt: bool,
    /// The weapon was fired a moment ago.
    pub firing: bool,
    pub dead: bool,
    /// The player has control.
    pub manual: bool,
    /// The attitude controls are on.
    pub attitude: bool,
    pub glance: Glance,
    pub weapon_center: i32,
    pub weapon_bob: i32,
    pub marker: Marker,
}

/// The frame with a text in it.
pub open spec fn written(
    pixels: Seq<u16>,
    text: Seq<char>,
    x: int,
    y: int,
    color: u16,
) -> Seq<u16> {
    text_drawn(pixels, 240, 320, text, x, y, color)
}

impl Overlay {
    /// The weapon, its flash and the marker can be painted.
    pub open spec fn wf(self) -> bool {
        &&& 215 + self.weapon_bob + (if self.firing {
            8int
        } else {
            0
        }) <= i32::MAX
        &&& self.weapon().wf()
        &&& self.firing ==> self.flash().wf()
        &&& self.marker.wf()
    }

    /// The weapon.
    pub open spec fn weapon(self) -> Weapon {
        Weapon {
            center: self.weapon_center,
            top: weapon_row(self.weapon_bob as int, self.firing) as usize,
        }
    }

    /// The flash at its muzzle.
    pub open spec fn flash(self) -> MuzzleFlash {
        MuzzleFlash {
            center: self.weapon_center,
            top: weapon_row(self.weapon_bob as int, self.firing) as usize,
        }
    }

    /// The face.
    pub open spec fn face(self) -> Face {
        Face { glance: self.glance, dead: self.dead, firing: self.firing, hurt: self.hurt }
    }

    /// With the crosshair, the weapon and its flash, the red edges of a hit and the
    /// banner of the attitude controls over the view.
    pub open spec fn over_view(self, pixels: Seq<u16>) -> Seq<u16> {
        let aimed = painted(painted(pixels, &Crosshair), &self.weapon());
        let fired = if self.firing {
            painted(aimed, &self.flash())
        } else {
            aimed
        };
        let hit = if self.hurt {
            painted(fired, &RedMesh { edges_only: true })
        } else {
            fired
        };
        if self.attitude {
            written(hit, "[ MADGWICK AHRS: ON ]"@, 57, 16, yellow())
        } else {
            hit
        }
    }

    /// With the status bar, the counts and the face. The counts flash white when
    /// something is picked up.
    pub open spec fn over_bar(self, pixels: Seq<u16>) -> Seq<u16> {
        let values = if self.picked_up {
            white()
        } else {
            yellow()
        };
        let a = written(painted(pixels, &Bar), "AMMO"@, 3, 262, red());
        let b = written(a, last_digits(self.ammo as nat, 3), 3, 276, values);
        let c = written(b, "HEALTH"@, 52, 262, red());
        let d = written(c, last_digits(self.health as nat, 3), 52, 276, values);
        painted(d, &self.face())
    }

    /// With the screen of a dead player.
    pub open spec fn over_death(self, pixels: Seq<u16>) -> Seq<u16> {
        if self.dead {
            let rule = "================================"@;
            let a = written(painted(pixels, &RedMesh { edges_only: false }), rule, 24, 90, white());
            let b = written(a, "YOU DIED!"@, 93, 105, white());
            let c = written(b, "TAP TO RESPAWN"@, 78, 122, yellow());
            written(c, rule, 24, 137, white())
        } else {
            pixels
        }
    }

    /// With the mode and the map.
    pub open spec fn over_mode(self, pixels: Seq<u16>) -> Seq<u16> {
        let mode = if self.manual {
            "MANUAL"@
        } else {
            " AUTO "@
        };
        let a = written(pixels, "MODE"@, 140, 262, red());
        let b = written(a, mode, 140, 276, yellow());
        painted(b, &Minimap { marker: self.marker })
    }

    /// The colour of the view in column `x` of row `y`, where `below` is what was
    /// there, and no text lies over it.
    pub open spec fn view_pixel(self, x: int, y: int, below: u16) -> u16 {
        let aimed = covered(&self.weapon(), x, y, covered(&Crosshair, x, y, below));
        let fired = if self.firing {
            covered(&self.flash(), x, y, aimed)
        } else {
            aimed
        };
        if self.hurt {
            covered(&RedMesh { edges_only: true }, x, y, fired)
        } else {
            fired
        }
    }

    /// The colour of the status bar in column `x` of row `y`, where no text lies
    /// over it.
    pub open spec fn bar_pixel(self, x: int, y: int) -> u16 {
        let ground = if y == 256 {
            red()
        } else {
            rgb(4, 6, 8)
        };
        covered(&Minimap { marker: self.marker }, x, y, covered(&self.face(), x, y, ground))
    }

    /// The finished frame.
    pub open spec fn over(self, pixels: Seq<u16>) -> Seq<u16> {
        self.over_mode(self.over_death(self.over_bar(self.over_view(pixels))))
    }
}

impl Overlay {
    /// What is shown of the state of a game.
    pub open spec fn showing(
        state: GameState,
        dead: bool,
        attitude: bool,
        glance: Glance,
        weapon_center: i32,
        weapon_bob: i32,
        marker: Marker,
    ) -> Overlay {
        Overlay {
            ammo: state.ammo,
            health: state.health,
            picked_up: state.pickup_flash > 0,
            hurt: state.damage_flash > 0,
            firing: state.muzzle_flash > 0,
            dead,
            manual: state.manual_timer > 0,
            attitude,
            glance,
            weapon_center,
            weapon_bob,
            marker,
        }
    }

    /// What is shown of a game. A dead player is one who was dead when the enemies'
    /// turn began.
    pub fn of_game(
        game: &Game,
        dead: bool,
        attitude: bool,
        glance: Glance,
        weapon_center: i32,
        weapon_bob: i32,
        marker: Marker,
    ) -> (overlay: Overlay)
        ensures
            overlay == (Overlay {
                ammo: game@.ammo,
                health: game@.health,
                picked_up: game@.pickup_flash > 0,
                hurt: game@.damage_flash > 0,
                firing: game@.muzzle_flash > 0,
                dead,
                manual: game@.manual_timer > 0,
                attitude,
                glance,
                weapon_center,
                weapon_bob,
                marker,
            }),
            overlay == Overlay::showing(
                game@,
                dead,
                attitude,
                glance,
                weapon_center,
                weapon_bob,
                marker,
            ),
    {
        Overlay {
            ammo: game.ammo,
            health: game.health,
            picked_up: game.pickup_flash > 0,
            hurt: game.damage_flash > 0,
            firing: game.muzzle_flash > 0,
            dead,
            manual: game.is_manual(),
            attitude,
            glance,
            weapon_center,
            weapon_bob,
            marker,
        }
    }
}

fn write(frame: &mut Frame, text: &str, x: i32, y: i32, color: u16)
    requires
        text@.len() <= 1000,
        0 <= x <= 1000,
        0 <= y <= 1000,
        !text@.contains('\n'),
    ensures
        final(frame)@ == written(old(frame)@, text@, x as int, y as int, color),
        kept_outside(old(frame)@, final(frame)@, y as int, y + 10),
{
    draw_text(frame, FRAME_WIDTH, FRAME_HEIGHT, text, x, y, color);
    assert forall|i: int| 0 <= i < 76800 && !(y <= i / 240 < y + 10) implies #[trigger] frame@[i]
        == old(frame)@[i] by {}
}

/// The pixels outside the rows from `top` to `bottom` are the same.
pub open spec fn kept_outside(before: Seq<u16>, after: Seq<u16>, top: int, bottom: int) -> bool {
    forall|i: int|
        0 <= i < 76800 && !(top <= i / 240 < bottom) ==> #[trigger] after[i] == before[i]
}

proof fn lemma_digits_one_line(value: nat, n: nat)
    ensures
        !last_digits(value, n).contains('\n'),
        last_digits(value, n).len() == n,
    decreases n,
{
    if n > 0 {
        lemma_digits_one_line(value / 10, (n - 1) as nat);
        let front = last_digits(value / 10, (n - 1) as nat);
        let all = last_digits(value, n);
        assert forall|i: int| 0 <= i < all.len() implies all[i] != '\n' by {
            if i < n - 1 {
                assert(front.contains(front[i]));
            }
        }
    }
}

/// Paints what lies over the view.
pub fn draw_view(frame: &mut Frame, overlay: &Overlay)
    requires
        overlay.wf(),
    ensures
        final(frame)@ == overlay.over_view(old(frame)@),
        forall|i: int|
            0 <= i < 61440 && !overlay.attitude ==> #[trigger] final(frame)@[i]
                == overlay.view_pixel(i % 240, i / 240, old(frame)@[i]),
{
    paint(frame, &Crosshair, Crosshair::region());
    let top: usize = weapon_top(overlay.weapon_bob, overlay.firing);
    let weapon = Weapon { center: overlay.weapon_center, top };
    paint(frame, &weapon, weapon.region());
    if overlay.firing {
        let flash = MuzzleFlash { center: overlay.weapon_center, top };
        paint(frame, &flash, flash.region());
    }
    if overlay.hurt {
        let edges = RedMesh { edges_only: true };
        paint(frame, &edges, edges.region());
    }
    if overlay.attitude {
        proof {
            reveal_strlit("[ MADGWICK AHRS: ON ]");
        }
        write(frame, "[ MADGWICK AHRS: ON ]", 57, 16, rgb565(31, 63, 0));
    }
}

/// Paints the status bar, the counts and the face.
pub fn draw_bar(frame: &mut Frame, overlay: &Overlay)
    ensures
        final(frame)@ == overlay.over_bar(old(frame)@),
        kept_outside(old(frame)@, final(frame)@, 256, 320),
        forall|i: int|
            61440 <= i < 76800 && !(262 <= i / 240 < 286) ==> #[trigger] final(frame)@[i]
                == covered(
                &overlay.face(),
                i % 240,
                i / 240,
                if i / 240 == 256 {
                    red()
                } else {
                    rgb(4, 6, 8)
                },
            ),
{
    paint(frame, &Bar, Bar::region());
    let ammo = format_u16(overlay.ammo, 3);
    let health = format_u16(overlay.health, 3);
    proof {
        reveal_strlit("AMMO");
        reveal_strlit("HEALTH");
        lemma_digits_one_line(overlay.ammo as nat, 3);
        lemma_digits_one_line(overlay.health as nat, 3);
    }
    let values: u16 = if overlay.picked_up {
        rgb565(31, 63, 31)
    } else {
        rgb565(31, 63, 0)
    };
    write(frame, "AMMO", 3, 262, rgb565(31, 0, 0));
    write(frame, ammo.as_str(), 3, 276, values);
    write(frame, "HEALTH", 52, 262, rgb565(31, 0, 0));
    write(frame, health.as_str(), 52, 276, values);
    let face = Face {
        glance: overlay.glance,
        dead: overlay.dead,
        firing: overlay.firing,
        hurt: overlay.hurt,
    };
    paint(frame, &face, face.region());
}

/// Paints the screen of a dead player.
pub fn draw_death(frame: &mut Frame, overlay: &Overlay)
    ensures
        final(frame)@ == overlay.over_death(old(frame)@),
        kept_outside(old(frame)@, final(frame)@, 0, 256),
        !overlay.dead ==> final(frame)@ == old(frame)@,
{
    if overlay.dead {
        let tint = RedMesh { edges_only: false };
        paint(frame, &tint, tint.region());
        proof {
            reveal_strlit("================================");
            reveal_strlit("YOU DIED!");
            reveal_strlit("TAP TO RESPAWN");
        }
        write(frame, "================================", 24, 90, rgb565(31, 63, 31));
        write(frame, "YOU DIED!", 93, 105, rgb565(31, 63, 31));
        write(frame, "TAP TO RESPAWN", 78, 122, rgb565(31, 63, 0));
        write(frame, "================================", 24, 137, rgb565(31, 63, 31));
    }
}

/// Paints the mode and the map.
pub fn draw_mode(frame: &mut Frame, overlay: &Overlay)
    requires
        overlay.marker.wf(),
    ensures
        final(frame)@ == overlay.over_mode(old(frame)@),
        forall|i: int|
            0 <= i < 76800 && !(262 <= i / 240 < 286) ==> #[trigger] final(frame)@[i] == covered(
                &(Minimap { marker: overlay.marker }),
                i % 240,
                i / 240,
                old(frame)@[i],
            ),
{
    proof {
        reveal_strlit("MODE");
        reveal_strlit("MANUAL");
        reveal_strlit(" AUTO ");
    }
    write(frame, "MODE", 140, 262, rgb565(31, 0, 0));
    if overlay.manual {
        write(frame, "MANUAL", 140, 276, rgb565(31, 63, 0));
    } else {
        write(frame, " AUTO ", 140, 276, rgb565(31, 63, 0));
    }
    let map = Minimap { marker: overlay.marker };
    paint(frame, &map, map.region());
}

/// Paints everything over a finished view. Nothing of the view shows through the
/// status bar, and nothing of the bar reaches into the view.
pub fn draw_overlay(frame: &mut Frame, overlay: &Overlay)
    requires
        overlay.wf(),
    ensures
        final(frame)@ == overlay.over(old(frame)@),
        forall|i: int|
            0 <= i < 61440 && !overlay.dead && !overlay.attitude ==> #[trigger] final(frame)@[i]
                == overlay.view_pixel(i % 240, i / 240, old(frame)@[i]),
        forall|i: int|
            61440 <= i < 76800 && !(262 <= i / 240 < 286) ==> #[trigger] final(frame)@[i]
                == overlay.bar_pixel(i % 240, i / 240),
{
    draw_view(frame, overlay);
    draw_bar(frame, overlay);
    draw_death(frame, overlay);
    draw_mode(frame, overlay);
}

/// The status bar is to be sent to the panel.
pub open spec fn bar_due(frame_count: u32, overlay: Overlay) -> bool {
    frame_count % 3 == 0 || overlay.picked_up || overlay.hurt || overlay.firing || overlay.dead
}

/// Whether the status bar is to be sent to the panel: in every third frame, and
/// whenever something flashes or the player is dead.
pub fn bar_needs_update(frame_count: u32, overlay: &Overlay) -> (yes: bool)
    ensures
        yes == (frame_count % 3 == 0 || overlay.picked_up || overlay.hurt || overlay.firing
            || overlay.dead),
        yes == bar_due(frame_count, *overlay),
{
    frame_count == 0 || frame_count % 3 == 0 || overlay.picked_up || overlay.hurt || overlay.firing
        || overlay.dead
}

/// The number that a sequence of digits stands for.
pub open spec fn digits_value(digits: Seq<char>) -> int
    decreases digits.len(),
{
    if digits.len() == 0 {
        0
    } else {
        digits_value(digits.drop_last()) * 10 + (digits.last() as int - 48)
    }
}

/// The counts are read back: a count below a thousand is shown as three digits that
/// stand for it.
pub proof fn law_counts_read_back(value: u16)
    requires
        value < 1000,
    ensures
        last_digits(value as nat, 3).len() == 3,
        digits_value(last_digits(value as nat, 3)) == value,
        forall|i: int| 0 <= i < 3 ==> '0' <= #[trigger] last_digits(value as nat, 3)[i] <= '9',
{
    reveal_with_fuel(last_digits, 4);
    reveal_with_fuel(digits_value, 4);
    let v = value as nat;
    let one = Seq::<char>::empty().push((48 + v / 10 / 10 % 10) as char);
    let two = one.push((48 + v / 10 % 10) as char);
    let three = two.push((48 + v % 10) as char);
    assert(last_digits(v, 3) == three);
    assert(three.drop_last() =~= two);
    assert(two.drop_last() =~= one);
    assert(one.drop_last() =~= Seq::<char>::empty());
}

/// The face looks where the player turns: with a glance to the side each pupil is two
/// pixels to that side of where it is with a glance ahead. The pupils are two, ten
/// pixels apart, and black.
pub proof fn law_pupils_follow(face: Face, x: int)
    requires
        104 <= x < 136,
    ensures
        ({
            let left = Face { glance: Glance::Left, ..face };
            let ahead = Face { glance: Glance::Ahead, ..face };
            let right = Face { glance: Glance::Right, ..face };
            &&& ahead.at(x, 278) == Some(black()) <==> x == 113 || x == 123
            &&& left.at(x - 2, 278) == Some(black()) <==> ahead.at(x, 278) == Some(black())
            &&& right.at(x + 2, 278) == Some(black()) <==> ahead.at(x, 278) == Some(black())
        }),
{
}

/// The eyes are red as soon as the player is dead, hurt or firing, and white
/// otherwise.
pub proof fn law_eyes_redden(face: Face, x: int)
    requires
        112 <= x <= 115 || 122 <= x <= 125,
        face.at(x, 278) != Some(black()),
    ensures
        face.dead ==> face.at(x, 278) == Some(red()),
        face.hurt ==> face.at(x, 278) == Some(red()),
        face.firing ==> face.at(x, 278) == Some(red()),
        !face.dead && !face.hurt && !face.firing ==> face.at(x, 278) == Some(white()),
{
}

/// The mouth tells what befell the player, death before a shot and a shot before a
/// hit, and lies in one row of the face, around its middle.
pub proof fn law_mouth_tells(face: Face, x: int)
    requires
        106 <= x < 134,
    ensures
        face.at(x, 294) == face.at(239 - x, 294),
        face.dead ==> (face.at(x, 294) == Some(black()) <==> 110 <= x < 130),
        !face.dead && face.firing ==> (face.at(x, 294) == Some(white()) <==> 114 <= x < 126),
        !face.dead && !face.firing && face.hurt ==> (face.at(x, 294) == Some(rgb(31, 10, 0))
            <==> 112 <= x < 128),
        !face.dead && !face.firing && !face.hurt ==> (face.at(x, 294) == Some(red()) <==> 114 <= x
            < 126),
        !(110 <= x < 130) ==> face.at(x, 294) == Some(rgb(18, 14, 12)),
{
}

/// Outside the rows of the eyes and the mouth a face is skin in a frame, whatever it
/// shows.
pub proof fn law_face_is_framed(face: Face, x: int, y: int)
    ensures
        face.at(x, y) is Some <==> 106 <= x < 134 && 260 <= y < 314,
        y != 278 && y != 294 && 110 <= x < 130 && 268 <= y < 304 ==> face.at(x, y) == Some(
            rgb(28, 20, 16),
        ),
        y != 278 && y != 294 && face.at(x, y) is Some && !(110 <= x < 130 && 268 <= y < 304)
            ==> face.at(x, y) == Some(rgb(18, 14, 12)),
{
}

/// The bar covers all that lies below the view, and nothing of the view.
pub proof fn law_bar_covers(x: int, y: int)
    requires
        0 <= y < 320,
    ensures
        Bar.at(x, y) is Some <==> y >= 256,
        Bar.at(x, 256) == Some(red()),
        y > 256 ==> Bar.at(x, y) == Some(rgb(4, 6, 8)),
{
}

/// What is shown follows the game: the counts are its counts, and each flash shows as
/// long as its counter has not run down.
pub proof fn law_overlay_follows_game(
    state: GameState,
    dead: bool,
    attitude: bool,
    glance: Glance,
    weapon_center: i32,
    weapon_bob: i32,
    marker: Marker,
)
    ensures
        ({
            let o = Overlay::showing(
                state,
                dead,
                attitude,
                glance,
                weapon_center,
                weapon_bob,
                marker,
            );
            &&& o.ammo == state.ammo && o.health == state.health
            &&& !o.picked_up <==> state.pickup_flash == 0
            &&& !o.hurt <==> state.damage_flash == 0
            &&& !o.firing <==> state.muzzle_flash == 0
            &&& !o.manual <==> state.manual_timer == 0
            &&& o.dead == dead && o.attitude == attitude && o.glance == glance
            &&& o.face() == (Face { glance, dead, firing: o.firing, hurt: o.hurt })
            &&& o.weapon().center == weapon_center && o.flash().center == weapon_center
            &&& o.weapon().top == o.flash().top
            &&& o.marker == marker
        }),
{
}

/// The bar is sent at least every third frame, and at once when something flashes or
/// the player is dead.
pub proof fn law_bar_is_never_stale(frame_count: u32, overlay: Overlay)
    requires
        frame_count <= u32::MAX - 2,
    ensures
        bar_due(frame_count, overlay) || bar_due((frame_count + 1) as u32, overlay) || bar_due(
            (frame_count + 2) as u32,
            overlay,
        ),
        overlay.picked_up ==> bar_due(frame_count, overlay),
        overlay.hurt ==> bar_due(frame_count, overlay),
        overlay.firing ==> bar_due(frame_count, overlay),
        overlay.dead ==> bar_due(frame_count, overlay),
        !overlay.picked_up && !overlay.hurt && !overlay.firing && !overlay.dead && bar_due(
            frame_count,
            overlay,
        ) ==> !bar_due((frame_count + 1) as u32, overlay),
{
}

/// What is seen over the view, without the banner: the red edges of a hit cover the
/// flash of a shot, which covers the weapon, which covers the crosshair; the edges are
/// there only when hurt and the flash only when firing, and where none of them is, the
/// view shows.
pub proof fn law_view_is_layered(overlay: Overlay, pixels: Seq<u16>, x: int, y: int)
    requires
        pixels.len() == 76800,
        0 <= x < 240,
        0 <= y < 320,
        !overlay.attitude,
    ensures
        ({
            let seen = overlay.over_view(pixels)[y * 240 + x];
            let top = weapon_row(overlay.weapon_bob as int, overlay.firing) as usize;
            let edges = RedMesh { edges_only: true }.at(x, y);
            let flash = MuzzleFlash { center: overlay.weapon_center, top }.at(x, y);
            let weapon = Weapon { center: overlay.weapon_center, top }.at(x, y);
            let cross = Crosshair.at(x, y);
            let hit = overlay.hurt && edges is Some;
            let fired = overlay.firing && flash is Some;
            &&& hit ==> Some(seen) == edges
            &&& !hit && fired ==> Some(seen) == flash
            &&& !hit && !fired && weapon is Some ==> Some(seen) == weapon
            &&& !hit && !fired && weapon is None && cross is Some ==> Some(seen) == cross
            &&& !hit && !fired && weapon is None && cross is None ==> seen == pixels[y * 240 + x]
        }),
{
    let i = y * 240 + x;
    assert(i % 240 == x && i / 240 == y);
}

/// The banner of the attitude controls lies over all that is seen without it.
pub proof fn law_banner_lies_on_top(overlay: Overlay, pixels: Seq<u16>)
    requires
        overlay.attitude,
    ensures
        overlay.over_view(pixels) == text_drawn(
            Overlay { attitude: false, ..overlay }.over_view(pixels),
            240,
            320,
            "[ MADGWICK AHRS: ON ]"@,
            57,
            16,
            yellow(),
        ),
{
}

/// The bar names ammo and health in red and shows their last three digits below, white
/// while something was just picked up and yellow otherwise. The face lies over them,
/// and no value of the player's changes anything else.
pub proof fn law_bar_shows_counts(a: Overlay, b: Overlay, pixels: Seq<u16>, x: int, y: int)
    requires
        pixels.len() == 76800,
        0 <= x < 240,
        0 <= y < 320,
        a.ammo % 1000 == b.ammo % 1000,
        a.health % 1000 == b.health % 1000,
        a.picked_up == b.picked_up,
    ensures
        ({
            let color = if a.picked_up {
                white()
            } else {
                yellow()
            };
            let words = text_drawn(painted(pixels, &Bar), 240, 320, "AMMO"@, 3, 262, red());
            let ammo = last_digits(a.ammo as nat, 3);
            let health = last_digits(a.health as nat, 3);
            let counts = text_drawn(
                text_drawn(
                    text_drawn(words, 240, 320, ammo, 3, 276, color),
                    240,
                    320,
                    "HEALTH"@,
                    52,
                    262,
                    red(),
                ),
                240,
                320,
                health,
                52,
                276,
                color,
            );
            a.over_bar(pixels) == painted(counts, &a.face())
        }),
        !(106 <= x < 134 && 260 <= y < 314) && y * 240 + x < a.over_bar(pixels).len()
            ==> a.over_bar(pixels)[y * 240 + x] == b.over_bar(pixels)[y * 240 + x],
{
    lemma_digits_repeat(a.ammo as nat, b.ammo as nat);
    lemma_digits_repeat(a.health as nat, b.health as nat);
    let i = y * 240 + x;
    assert(i % 240 == x && i / 240 == y);
}

/// Numbers that differ by thousands have the same last three digits.
proof fn lemma_digits_repeat(a: nat, b: nat)
    requires
        a % 1000 == b % 1000,
    ensures
        last_digits(a, 3) == last_digits(b, 3),
{
    lemma_digits_of_rest(a);
    lemma_digits_of_rest(b);
}

/// The last three digits of a number are those of what is left of it without its
/// thousands.
proof fn lemma_digits_of_rest(a: nat)
    ensures
        last_digits(a, 3) == last_digits(a % 1000, 3),
{
    reveal_with_fuel(last_digits, 4);
    let r = a % 1000;
    let k = a / 1000;
    assert(a == 1000 * k + r);
    assert(a / 10 == 100 * k + r / 10);
    assert(a / 10 / 10 == 10 * k + r / 10 / 10);
}

/// The screen of a dead player is the same whatever else is shown, and there is none
/// for a living one.
pub proof fn law_death_has_one_screen(a: Overlay, b: Overlay, pixels: Seq<u16>)
    ensures
        a.dead && b.dead ==> a.over_death(pixels) == b.over_death(pixels),
        !a.dead ==> a.over_death(pixels) == pixels,
{
}

/// The mode depends on who has control and the map on the marker, and neither on
/// anything else: with the same mode all is the same outside the map, and inside it
/// the map of the marker is seen.
pub proof fn law_mode_and_map(a: Overlay, b: Overlay, pixels: Seq<u16>, x: int, y: int)
    requires
        a.manual == b.manual,
        a.marker.wf(),
        b.marker.wf(),
        0 <= x < 240,
        0 <= y < 320,
        y * 240 + x < a.over_mode(pixels).len(),
    ensures
        a.over_mode(pixels).len() == b.over_mode(pixels).len(),
        186 <= x < 234 && 260 <= y < 308 ==> Some(a.over_mode(pixels)[y * 240 + x]) == (Minimap {
            marker: a.marker,
        }).at(x, y),
        !(186 <= x < 234 && 260 <= y < 308) ==> a.over_mode(pixels)[y * 240 + x] == b.over_mode(
            pixels,
        )[y * 240 + x],
{
    let i = y * 240 + x;
    assert(i % 240 == x && i / 240 == y);
}

/// The finished frame is made in four steps, each over the one before: the view, the
/// bar, the screen of a dead player, and the mode and the map.
pub proof fn law_overlay_in_steps(overlay: Overlay, pixels: Seq<u16>)
    ensures
        overlay.over(pixels) == overlay.over_mode(
            overlay.over_death(overlay.over_bar(overlay.over_view(pixels))),
        ),
        !overlay.dead ==> overlay.over(pixels) == overlay.over_mode(
            overlay.over_bar(overlay.over_view(pixels)),
        ),
{
}

} // verus!
