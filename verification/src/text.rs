//! Drawing text into a frame buffer.

use vstd::prelude::*;

use embedded_3dgfx::hud::FramebufDrawTarget;
use embedded_graphics::mono_font::ascii::FONT_6X10;
use embedded_graphics::mono_font::MonoTextStyle;
use embedded_graphics::pixelcolor::raw::RawU16;
use embedded_graphics::pixelcolor::{IntoStorage, Rgb565};
use embedded_graphics::prelude::{Drawable, Point};
use embedded_graphics::text::{Baseline, Text};

verus! {

/// What a frame buffer of `width` by `height` pixels holds once `text` has been
/// drawn into it in a font of six by ten pixels, with the upper left corner of
/// the first character at (`x`, `y`).
pub uninterp spec fn text_drawn(
    pixels: Seq<u16>,
    width: int,
    height: int,
    text: Seq<char>,
    x: int,
    y: int,
    color: u16,
) -> Seq<u16>;

/// `Text::with_baseline(..).draw(..)` of `embedded-graphics`, with the font
/// `FONT_6X10` and no background, on a `FramebufDrawTarget` of
/// `embedded-3dgfx`. The result depends on the arguments alone. The number of
/// pixels stays. A pixel that changes takes the text's colour and lies in row
/// `y` or below it, in the ten rows from `y` on where the text is one line.
#[verifier::external_body]
pub(crate) fn draw_text(
    pixels: &mut [u16],
    width: usize,
    height: usize,
    text: &str,
    x: i32,
    y: i32,
    color: u16,
)
    requires
        width * height <= old(pixels)@.len(),
        width <= 1000,
        height <= 1000,
        text@.len() <= 1000,
        0 <= x <= 1000,
        0 <= y <= 1000,
    ensures
        final(pixels)@ == text_drawn(
            old(pixels)@,
            width as int,
            height as int,
            text@,
            x as int,
            y as int,
            color,
        ),
        final(pixels)@.len() == old(pixels)@.len(),
        forall|i: int|
            #![trigger final(pixels)@[i]]
            0 <= i < old(pixels)@.len() && final(pixels)@[i] != old(pixels)@[i] ==> {
                &&& final(pixels)@[i] == color
                &&& y * width <= i
                &&& !text@.contains('\n') ==> i < (y + 10) * width
            },
{
    let mut frame: Vec<Rgb565> = pixels.iter().map(|p| Rgb565::from(RawU16::new(*p))).collect();
    let style = MonoTextStyle::new(&FONT_6X10, Rgb565::from(RawU16::new(color)));
    let mut target = FramebufDrawTarget::new(&mut frame, width, height);
    let _ = Text::with_baseline(text, Point::new(x, y), style, Baseline::Top).draw(&mut target);
    for (pixel, drawn) in pixels.iter_mut().zip(frame) {
        *pixel = drawn.into_storage();
    }
}

} // verus!
