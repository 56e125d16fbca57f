use embedded_3dgfx::hud::FramebufDrawTarget;
use embedded_graphics::mono_font::ascii::FONT_6X10;
use embedded_graphics::mono_font::MonoTextStyle;
use embedded_graphics::pixelcolor::raw::RawU16;
use embedded_graphics::pixelcolor::{IntoStorage, Rgb565};
use embedded_graphics::prelude::{Drawable, Point, RgbColor};
use embedded_graphics::text::{Baseline, Text};
use stm32wba_tftdisplay::doom::depth::{far_to_near, BILLBOARDS};
use stm32wba_tftdisplay::doom::frame::{paint, Frame, Layer, Region, FRAME_PIXELS};
use stm32wba_tftdisplay::doom::game::{Game, Sprite};
use stm32wba_tftdisplay::doom::hud::{
    bar_needs_update, draw_bar, draw_death, draw_mode, draw_overlay, draw_view, Face, Glance,
    Overlay,
};
use stm32wba_tftdisplay::doom::level::MAP;
use stm32wba_tftdisplay::doom::minimap::{Marker, Minimap};
use stm32wba_tftdisplay::doom::texture::{
    fireball_color, has_eyes, sprite_color, sprite_pixel, wall_texel,
};
use stm32wba_tftdisplay::doom::view::{weapon_top, Crosshair, MuzzleFlash, RedMesh, Weapon};

fn rgb(r: u8, g: u8, b: u8) -> u16 {
    Rgb565::new(r, g, b).into_storage()
}

const MARKER: Marker = Marker { x: 200, y: 280, arrow_x: 204, arrow_y: 283 };

fn overlay() -> Overlay {
    Overlay {
        ammo: 50,
        health: 80,
        picked_up: false,
        hurt: false,
        firing: false,
        dead: false,
        manual: false,
        attitude: false,
        glance: Glance::Ahead,
        weapon_center: 120,
        weapon_bob: 0,
        marker: MARKER,
    }
}

fn write(frame: &mut Frame, text: &str, x: i32, y: i32, color: Rgb565) {
    let mut pixels: Vec<Rgb565> = frame.iter().map(|p| Rgb565::from(RawU16::new(*p))).collect();
    let mut target = FramebufDrawTarget::new(&mut pixels, 240, 320);
    let style = MonoTextStyle::new(&FONT_6X10, color);
    let _ = Text::with_baseline(text, Point::new(x, y), style, Baseline::Top).draw(&mut target);
    for (p, drawn) in frame.iter_mut().zip(pixels) {
        *p = drawn.into_storage();
    }
}

fn same(a: &Frame, b: &Frame) -> bool {
    a.iter().zip(b.iter()).all(|(x, y)| x == y)
}

#[test]
fn layer_is_painted_in_its_region() {
    let mut frame: Frame = [1; FRAME_PIXELS];
    paint(&mut frame, &Crosshair, Crosshair::region());
    for y in 0..320usize {
        for x in 0..240usize {
            let expected = Crosshair.pixel(x, y).unwrap_or(1);
            assert_eq!(frame[y * 240 + x], expected);
        }
    }
    assert_eq!(Crosshair::region(), Region { left: 116, top: 124, right: 125, bottom: 133 });
}

#[test]
fn crosshair_has_four_arms() {
    let mut set = Vec::new();
    for y in 0..320usize {
        for x in 0..240usize {
            if let Some(color) = Crosshair.pixel(x, y) {
                assert_eq!(color, Rgb565::GREEN.into_storage());
                set.push((x, y));
            }
        }
    }
    let mut expected = Vec::new();
    for k in 1..=4usize {
        expected.push((120 - k, 128));
        expected.push((120 + k, 128));
        expected.push((120, 128 - k));
        expected.push((120, 128 + k));
    }
    expected.sort_by_key(|p| (p.1, p.0));
    assert_eq!(set, expected);
}

#[test]
fn weapon_bobs_and_recoils() {
    assert_eq!(weapon_top(0, false), 215);
    assert_eq!(weapon_top(4, true), 227);
    assert_eq!(weapon_top(-4, false), 211);
    assert_eq!(weapon_top(-100, true), 180);
    assert_eq!(weapon_top(100, false), 248);
}

#[test]
fn weapon_widens_downward() {
    let mut frame: Frame = [1; FRAME_PIXELS];
    let weapon = Weapon { center: 121, top: 215 };
    let region = weapon.region();
    paint(&mut frame, &weapon, region);
    let mut expected: Frame = [1; FRAME_PIXELS];
    for y in 215..256usize {
        let half = 12 + (y - 215) / 2;
        for x in 121 - half..121 + half {
            expected[y * 240 + x] = if x % 3 == 0 { rgb(5, 5, 5) } else { rgb(12, 14, 16) };
        }
    }
    assert!(same(&frame, &expected));
}

#[test]
fn weapon_is_cut_at_the_edges() {
    let mut frame: Frame = [1; FRAME_PIXELS];
    for center in [-20, 239, 300] {
        let weapon = Weapon { center, top: 250 };
        let region = weapon.region();
        paint(&mut frame, &weapon, region);
    }
    assert_eq!(frame[255 * 240], 1);
    assert_eq!(frame[255 * 240 + 238], rgb(12, 14, 16));
    assert_eq!(frame[255 * 240 + 239], 1);
}

#[test]
fn muzzle_flash_is_a_diamond() {
    let mut frame: Frame = [1; FRAME_PIXELS];
    let flash = MuzzleFlash { center: 120, top: 215 };
    let region = flash.region();
    paint(&mut frame, &flash, region);
    let mut expected: Frame = [1; FRAME_PIXELS];
    for dy in 0..16usize {
        let radius = 8 - (dy as i32 - 8).unsigned_abs() as usize;
        let color = if dy % 2 == 0 { Rgb565::YELLOW.into_storage() } else { rgb(31, 32, 0) };
        for x in 120 - radius..=120 + radius {
            expected[(203 + dy) * 240 + x] = color;
        }
    }
    assert!(same(&frame, &expected));
}

#[test]
fn muzzle_flash_is_cut_at_the_edges() {
    let mut frame: Frame = [1; FRAME_PIXELS];
    for center in [0, 240] {
        let flash = MuzzleFlash { center, top: 248 };
        let region = flash.region();
        paint(&mut frame, &flash, region);
    }
    // The widest row reaches eight pixels into the frame on either side.
    let row = 228 * 240;
    assert_eq!(frame[row + 8], Rgb565::YELLOW.into_storage());
    assert_eq!(frame[row + 9], 1);
    assert_eq!(frame[row + 232], Rgb565::YELLOW.into_storage());
    assert_eq!(frame[row + 231], 1);
}

#[test]
fn red_mesh_covers_every_other_pixel() {
    for edges_only in [true, false] {
        let mesh = RedMesh { edges_only };
        for y in 0..320usize {
            for x in 0..240usize {
                let edge = y < 12 || y >= 244 || x < 12 || x >= 228;
                let red = y < 256 && (edge || !edges_only) && (x + y) % 2 == 0;
                let expected = if red { Some(Rgb565::RED.into_storage()) } else { None };
                assert_eq!(mesh.pixel(x, y), expected);
            }
        }
    }
}

#[test]
fn face_shows_the_state_of_the_player() {
    let face = Face { glance: Glance::Ahead, dead: false, firing: false, hurt: false };
    assert_eq!(face.pixel(106, 260), Some(rgb(18, 14, 12)));
    assert_eq!(face.pixel(133, 313), Some(rgb(18, 14, 12)));
    assert_eq!(face.pixel(134, 313), None);
    assert_eq!(face.pixel(110, 268), Some(rgb(28, 20, 16)));
    assert_eq!(face.pixel(112, 278), Some(Rgb565::WHITE.into_storage()));
    assert_eq!(face.pixel(113, 278), Some(0));
    assert_eq!(face.pixel(123, 278), Some(0));
    assert_eq!(face.pixel(114, 294), Some(Rgb565::RED.into_storage()));
    assert_eq!(face.pixel(126, 294), Some(rgb(28, 20, 16)));
    let left = Face { glance: Glance::Left, ..face };
    assert_eq!((left.pixel(111, 278), left.pixel(121, 278)), (Some(0), Some(0)));
    let right = Face { glance: Glance::Right, ..face };
    assert_eq!((right.pixel(115, 278), right.pixel(125, 278)), (Some(0), Some(0)));
    let firing = Face { firing: true, ..face };
    assert_eq!(firing.pixel(114, 294), Some(Rgb565::WHITE.into_storage()));
    assert_eq!(firing.pixel(112, 278), Some(Rgb565::RED.into_storage()));
    let hurt = Face { hurt: true, ..face };
    assert_eq!(hurt.pixel(112, 294), Some(rgb(31, 10, 0)));
    assert_eq!(hurt.pixel(128, 294), Some(rgb(28, 20, 16)));
    let dead = Face { dead: true, firing: true, hurt: true, ..face };
    assert_eq!((dead.pixel(110, 294), dead.pixel(129, 294)), (Some(0), Some(0)));
}

#[test]
fn minimap_is_mirrored() {
    let map = Minimap { marker: MARKER };
    for y in 0..16usize {
        for x in 0..16usize {
            let color = match MAP[y * 16 + x] {
                0 => 0,
                1 => rgb(14, 28, 14),
                2 => rgb(20, 4, 4),
                3 => rgb(3, 12, 22),
                _ => rgb(16, 16, 8),
            };
            for k in 0..9usize {
                let px = 186 + (15 - x) * 3 + k % 3;
                let py = 260 + y * 3 + k / 3;
                let dot = (200..=201).contains(&px) && (280..=281).contains(&py);
                let arrow = (px, py) == (204, 283);
                if !dot && !arrow {
                    assert_eq!(map.pixel(px, py), Some(color));
                }
            }
        }
    }
    assert_eq!(map.pixel(201, 281), Some(Rgb565::RED.into_storage()));
    assert_eq!(map.pixel(204, 283), Some(Rgb565::YELLOW.into_storage()));
    assert_eq!(map.pixel(185, 260), None);
}

#[test]
fn marker_stays_on_the_map() {
    assert_eq!(
        Marker::place(10, 20, 3, -4),
        Marker { x: 196, y: 280, arrow_x: 193, arrow_y: 276 }
    );
    assert_eq!(
        Marker::place(48, 48, -4, 4),
        Marker { x: 232, y: 306, arrow_x: 233, arrow_y: 307 }
    );
    assert_eq!(Marker::place(0, 0, 4, -4), Marker { x: 186, y: 260, arrow_x: 186, arrow_y: 260 });
}

#[test]
fn view_is_drawn_over() {
    let mut frame: Frame = [1; FRAME_PIXELS];
    let mut expected: Frame = [1; FRAME_PIXELS];
    let shown = Overlay { firing: true, hurt: true, attitude: true, ..overlay() };
    draw_view(&mut frame, &shown);
    paint(&mut expected, &Crosshair, Crosshair::region());
    let weapon = Weapon { center: 120, top: 223 };
    let region = weapon.region();
    paint(&mut expected, &weapon, region);
    let flash = MuzzleFlash { center: 120, top: 223 };
    let region = flash.region();
    paint(&mut expected, &flash, region);
    let mesh = RedMesh { edges_only: true };
    let region = mesh.region();
    paint(&mut expected, &mesh, region);
    write(&mut expected, "[ MADGWICK AHRS: ON ]", 57, 16, Rgb565::YELLOW);
    assert!(same(&frame, &expected));
}

#[test]
fn bar_shows_the_counts() {
    for (ammo, health, picked_up) in [(50u16, 80u16, false), (7, 100, true), (999, 0, false)] {
        let mut frame: Frame = [1; FRAME_PIXELS];
        draw_bar(&mut frame, &Overlay { ammo, health, picked_up, ..overlay() });
        let mut expected: Frame = [1; FRAME_PIXELS];
        for p in expected[256 * 240..257 * 240].iter_mut() {
            *p = Rgb565::RED.into_storage();
        }
        for p in expected[257 * 240..].iter_mut() {
            *p = rgb(4, 6, 8);
        }
        let values = if picked_up { Rgb565::WHITE } else { Rgb565::YELLOW };
        write(&mut expected, "AMMO", 3, 262, Rgb565::RED);
        write(&mut expected, &format!("{:03}", ammo), 3, 276, values);
        write(&mut expected, "HEALTH", 52, 262, Rgb565::RED);
        write(&mut expected, &format!("{:03}", health), 52, 276, values);
        let face = Face { glance: Glance::Ahead, dead: false, firing: false, hurt: false };
        let region = face.region();
        paint(&mut expected, &face, region);
        assert!(same(&frame, &expected));
    }
}

#[test]
fn counts_show_three_digits() {
    let mut large: Frame = [1; FRAME_PIXELS];
    let mut small: Frame = [1; FRAME_PIXELS];
    draw_bar(&mut large, &Overlay { ammo: 4042, ..overlay() });
    draw_bar(&mut small, &Overlay { ammo: 42, ..overlay() });
    assert!(same(&large, &small));
}

#[test]
fn death_has_its_screen() {
    let mut frame: Frame = [1; FRAME_PIXELS];
    draw_death(&mut frame, &overlay());
    assert!(frame.iter().all(|p| *p == 1));
    draw_death(&mut frame, &Overlay { dead: true, ..overlay() });
    let mut expected: Frame = [1; FRAME_PIXELS];
    let mesh = RedMesh { edges_only: false };
    let region = mesh.region();
    paint(&mut expected, &mesh, region);
    write(&mut expected, "================================", 24, 90, Rgb565::WHITE);
    write(&mut expected, "YOU DIED!", 93, 105, Rgb565::WHITE);
    write(&mut expected, "TAP TO RESPAWN", 78, 122, Rgb565::YELLOW);
    write(&mut expected, "================================", 24, 137, Rgb565::WHITE);
    assert!(same(&frame, &expected));
}

#[test]
fn mode_is_shown() {
    for (manual, text) in [(true, "MANUAL"), (false, " AUTO ")] {
        let mut frame: Frame = [1; FRAME_PIXELS];
        draw_mode(&mut frame, &Overlay { manual, ..overlay() });
        let mut expected: Frame = [1; FRAME_PIXELS];
        write(&mut expected, "MODE", 140, 262, Rgb565::RED);
        write(&mut expected, text, 140, 276, Rgb565::YELLOW);
        let map = Minimap { marker: MARKER };
        let region = map.region();
        paint(&mut expected, &map, region);
        assert!(same(&frame, &expected));
    }
}

#[test]
fn nothing_of_the_view_shows_through_the_bar() {
    let shown = Overlay { dead: true, hurt: true, firing: true, ..overlay() };
    let mut dark: Frame = [0; FRAME_PIXELS];
    let mut bright: Frame = [0xFFFF; FRAME_PIXELS];
    draw_overlay(&mut dark, &shown);
    draw_overlay(&mut bright, &shown);
    assert!(dark[256 * 240..] == bright[256 * 240..]);
    assert!(dark[..256 * 240] != bright[..256 * 240]);
    let mut steps: Frame = [0; FRAME_PIXELS];
    draw_view(&mut steps, &shown);
    draw_bar(&mut steps, &shown);
    draw_death(&mut steps, &shown);
    draw_mode(&mut steps, &shown);
    assert!(same(&dark, &steps));
}

#[test]
fn bar_is_sent_when_it_changes() {
    let quiet = overlay();
    assert!(bar_needs_update(0, &quiet));
    assert!(bar_needs_update(3, &quiet));
    assert!(!bar_needs_update(4, &quiet));
    assert!(bar_needs_update(4, &Overlay { picked_up: true, ..quiet }));
    assert!(bar_needs_update(4, &Overlay { hurt: true, ..quiet }));
    assert!(bar_needs_update(4, &Overlay { firing: true, ..quiet }));
    assert!(bar_needs_update(4, &Overlay { dead: true, ..quiet }));
}

#[test]
fn walls_have_textures() {
    for y in 0..16usize {
        for x in 0..16usize {
            let mortar = y % 4 == 0
                || ((y / 4) % 2 == 0 && x % 8 == 0)
                || ((y / 4) % 2 == 1 && (x + 4) % 8 == 0);
            assert_eq!(wall_texel(1, x, y), if mortar { rgb(6, 12, 6) } else { rgb(18, 14, 2) });
            let frame = x == 0 || x == 15 || y == 0 || y == 15;
            let lit = y == 2 || y == 14 || (x == 8 && y > 4 && y < 12);
            let panel = if lit {
                rgb(0, 50, 25)
            } else if frame {
                rgb(2, 8, 12)
            } else {
                rgb(4, 16, 22)
            };
            assert_eq!(wall_texel(2, x, y), panel);
            let stripe = if (x + y) % 6 < 3 { rgb(31, 63, 0) } else { rgb(2, 4, 2) };
            assert_eq!(wall_texel(3, x, y), stripe);
            let door = if frame {
                rgb(16, 32, 16)
            } else if (12..=13).contains(&x) && (7..=9).contains(&y) {
                rgb(31, 63, 0)
            } else {
                rgb(10, 20, 10)
            };
            assert_eq!(wall_texel(5, x, y), door);
            assert_eq!(wall_texel(6, x, y), door);
        }
    }
}

#[test]
fn sprites_have_colours() {
    let sprite = |kind: u8, hit_flash: u8| Sprite { kind, active: true, hp: 1, cooldown: 0, hit_flash };
    assert_eq!(sprite_color(&sprite(1, 0)), rgb(16, 40, 8));
    assert_eq!(sprite_color(&sprite(2, 0)), rgb(0, 63, 0));
    assert_eq!(sprite_color(&sprite(3, 0)), rgb(18, 10, 4));
    assert_eq!(sprite_color(&sprite(4, 0)), rgb(0, 36, 31));
    assert_eq!(sprite_color(&sprite(3, 1)), rgb(31, 63, 31));
    assert_eq!(fireball_color(), rgb(31, 32, 0));
    assert!(has_eyes(&sprite(3, 0)));
    assert!(!has_eyes(&sprite(3, 1)) && !has_eyes(&sprite(1, 0)));
}

#[test]
fn imps_have_red_eyes() {
    let red = Rgb565::RED.into_storage();
    // Of 60 rows from 100 on, the band reaches from row 110 to row 115.
    assert_eq!(sprite_pixel(7, true, 0, 110, 100, 160), Some(red));
    assert_eq!(sprite_pixel(7, true, 1, 115, 100, 160), Some(red));
    assert_eq!(sprite_pixel(7, true, 0, 108, 100, 160), Some(7));
    assert_eq!(sprite_pixel(7, true, 0, 116, 100, 160), Some(7));
    assert_eq!(sprite_pixel(7, false, 0, 110, 100, 160), Some(7));
    assert_eq!(sprite_pixel(7, true, 1, 110, 100, 160), None);
    assert_eq!(sprite_pixel(7, false, 0, 110, 160, 100), Some(7));
}

#[test]
fn overlay_shows_the_game() {
    let mut game = Game::new();
    let quiet = Overlay::of_game(&game, false, false, Glance::Ahead, 120, 0, MARKER);
    assert_eq!(quiet, overlay());
    game.pickup_flash = 1;
    game.damage_flash = 1;
    game.muzzle_flash = 1;
    game.manual_timer = 1;
    let busy = Overlay::of_game(&game, true, true, Glance::Left, 119, -3, MARKER);
    assert!(busy.picked_up && busy.hurt && busy.firing && busy.manual && busy.dead);
    assert!(busy.attitude);
    assert_eq!((busy.glance, busy.weapon_center, busy.weapon_bob), (Glance::Left, 119, -3));
}

#[test]
fn far_things_are_drawn_first() {
    let distances = [5u32, 9, 1, 9, 0, 5, 7, 100, u32::MAX, 3, 3, 2, 8];
    let order = far_to_near(&distances);
    assert_eq!(order, [8, 7, 1, 3, 12, 6, 0, 5, 9, 10, 11, 2, 4]);
    let mut sorted: Vec<usize> = order.to_vec();
    sorted.sort();
    assert_eq!(sorted, (0..BILLBOARDS).collect::<Vec<usize>>());
    assert_eq!(far_to_near(&[4; BILLBOARDS]), [0, 1, 2, 3, 4, 5, 6, 7, 8, 9, 10, 11, 12]);
}
