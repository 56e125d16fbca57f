use embedded_3dgfx::hud::FramebufDrawTarget;
use embedded_graphics::mono_font::ascii::FONT_6X10;
use embedded_graphics::mono_font::MonoTextStyle;
use embedded_graphics::pixelcolor::{IntoStorage, Rgb565};
use embedded_graphics::prelude::{Drawable, Point, RgbColor};
use embedded_graphics::text::{Baseline, Text};
use stm32wba_tftdisplay::mesh::demo::{
    background, blit_stats, draw_stats, draw_title, fps, should_update_stats, stats_line, Animation,
    MeshMode,
};
use stm32wba_tftdisplay::mesh::dirty_rect::VIEW_PIXELS;
use stm32wba_tftdisplay::mesh::faces::{
    CUBE_FACES, CUBE_VERTEX_COUNT, OCTA_FACES, OCTA_VERTEX_COUNT, SPACECRAFT_FACES,
    SPACECRAFT_VERTEX_COUNT,
};

fn with_text(ground: Rgb565, text: &str, x: i32, y: i32, color: Rgb565) -> Vec<u16> {
    let mut frame = vec![ground; VIEW_PIXELS];
    let mut target = FramebufDrawTarget::new(&mut frame, 320, 240);
    let style = MonoTextStyle::new(&FONT_6X10, color);
    let _ = Text::with_baseline(text, Point::new(x, y), style, Baseline::Top).draw(&mut target);
    frame.iter().map(|p| p.into_storage()).collect()
}

#[test]
fn colours_are_packed() {
    assert_eq!(background(), (2 << 11) | (3 << 5) | 6);
    assert_eq!(background(), Rgb565::new(2, 3, 6).into_storage());
}

#[test]
fn style_changes_every_ninety_frames() {
    let mut animation = Animation::new();
    let colors = [
        Rgb565::CYAN,
        Rgb565::MAGENTA,
        Rgb565::YELLOW,
        Rgb565::GREEN,
        Rgb565::RED,
        Rgb565::WHITE,
    ];
    let modes = [MeshMode::Lines, MeshMode::Points, MeshMode::Solid];
    for frame in 1..=1080u32 {
        let style = animation.advance();
        assert_eq!(animation.frame_count(), frame);
        if frame % 90 != 0 {
            assert!(style.is_none());
        } else {
            let run = (frame / 90) as usize;
            let style = style.unwrap();
            assert_eq!(style.cube_color, colors[run % 6].into_storage());
            assert_eq!(style.octa_color, colors[(run + 3) % 6].into_storage());
            assert_eq!(style.mode, modes[run % 3]);
            assert_ne!(style.cube_color, style.octa_color);
        }
    }
}

#[test]
fn statistics_are_drawn_now_and_then() {
    let drawn: Vec<u32> = (0..32).filter(|n| should_update_stats(*n)).collect();
    assert_eq!(drawn, vec![0, 1, 2, 3, 4, 10, 20, 30]);
}

#[test]
fn frame_rate_of_a_frame() {
    assert_eq!(fps(0), 1000);
    assert_eq!(fps(1), 1000);
    assert_eq!(fps(16), 62);
    assert_eq!(fps(1001), 0);
}

#[test]
fn statistics_are_one_line() {
    let line = stats_line(16, 8123, 4567);
    assert_eq!(line.as_str(), "FPS:62 3D:8123us DMA:4567us");
    let long = stats_line(0, u64::MAX, u64::MAX);
    assert_eq!(long.as_str(), "FPS:1000 3D:18446744073709551615us DMA:18446744073709551615us");
}

#[test]
fn title_is_drawn_and_sent() {
    let mut buffer = [0u16; VIEW_PIXELS];
    let sent = draw_title(&mut buffer);
    let ground = Rgb565::new(2, 3, 6);
    let expected = with_text(ground, "STM32WBA65RI FULL 320x240 DEMO", 10, 5, Rgb565::CYAN);
    assert!(buffer[..] == expected[..]);
    assert!(buffer.iter().any(|p| *p == Rgb565::CYAN.into_storage()));
    let a = sent.area;
    assert_eq!((a.x, a.y, a.width, a.height), (10, 5, 250, 15));
    assert_eq!(sent.pixels.len(), 250 * 15);
    assert_eq!(sent.pixels[0], buffer[5 * 320 + 10]);
    assert_eq!(sent.pixels[251], buffer[6 * 320 + 11]);
}

#[test]
fn statistics_are_wiped_and_drawn() {
    let mut buffer = [0xFFFFu16; VIEW_PIXELS];
    draw_stats(&mut buffer, 20, 30, 40);
    let ground = Rgb565::new(2, 3, 6);
    let text = with_text(ground, "FPS:50 3D:30us DMA:40us", 10, 224, Rgb565::GREEN);
    for y in 0..240 {
        for x in 0..320 {
            let i = y * 320 + x;
            if (10..240).contains(&x) && (220..238).contains(&y) {
                assert_eq!(buffer[i], text[i]);
            } else {
                assert_eq!(buffer[i], 0xFFFF);
            }
        }
    }
    let sent = blit_stats(&buffer);
    let a = sent.area;
    assert_eq!((a.x, a.y, a.width, a.height), (10, 220, 230, 18));
    assert_eq!(sent.pixels.len(), 230 * 18);
    assert_eq!(sent.pixels[230 * 4..230 * 5], buffer[224 * 320 + 10..224 * 320 + 240]);
}

#[test]
fn faces_name_three_vertices() {
    let check = |faces: &[[usize; 3]], n: usize| {
        for f in faces {
            assert!(f.iter().all(|v| *v < n));
            assert!(f[0] != f[1] && f[1] != f[2] && f[2] != f[0]);
        }
    };
    check(&CUBE_FACES, CUBE_VERTEX_COUNT);
    check(&OCTA_FACES, OCTA_VERTEX_COUNT);
    check(&SPACECRAFT_FACES, SPACECRAFT_VERTEX_COUNT);
}

#[test]
fn spacecraft_has_two_sides() {
    for i in 0..10 {
        let front = SPACECRAFT_FACES[i];
        assert_eq!(SPACECRAFT_FACES[i + 10], [front[0], front[2], front[1]]);
    }
}
