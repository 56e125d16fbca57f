//! The mesh demo: colour and mode cycling, the title and the statistics.

use vstd::arithmetic::div_mod::{lemma_fundamental_div_mod, lemma_mod_bound};
use vstd::arithmetic::power::pow;
use vstd::prelude::*;
use vstd::string::*;

use crate::array_string::{
    cut, decimal, decimal_value, law_decimal_value, lemma_ascii_shown, lemma_cut_append,
    lemma_decimal_digits, lemma_decimal_short, lemma_shown_len, shown, ArrayString,
};
use crate::color::{cyan, green, magenta, red, rgb, rgb565, white, yellow};
use crate::mesh::dirty_rect::{DirtyRect, VIEW_HEIGHT, VIEW_PIXELS, VIEW_WIDTH};
use crate::mesh::offscreen::{column, fill_all, row, Area};
use crate::mesh::panel::{read_region, region_pixels, Blit};
use crate::text::{draw_text, text_drawn};

verus! {

/// How a mesh is drawn.
#[derive(Clone, Copy, Debug, PartialEq, Eq, Structural)]
pub enum MeshMode {
    Lines,
    Points,
    Solid,
}

/// Colours and mode that the meshes change to.
#[derive(Clone, Copy, Debug, PartialEq, Eq, Structural)]
pub struct MeshStyle {
    pub cube_color: u16,
    pub octa_color: u16,
    pub mode: MeshMode,
}

/// Frames between two changes of colour.
pub const FRAMES_PER_STYLE: u32 = 90;

/// The colours that the meshes cycle through.
pub open spec fn palette() -> Seq<u16> {
    seq![cyan(), magenta(), yellow(), green(), red(), white()]
}

/// The modes that the meshes cycle through.
pub open spec fn modes() -> Seq<MeshMode> {
    seq![MeshMode::Lines, MeshMode::Points, MeshMode::Solid]
}

fn palette_color(index: usize) -> (color: u16)
    requires
        index < 6,
    ensures
        color == palette()[index as int],
{
    match index {
        0 => rgb565(0, 63, 31),
        1 => rgb565(31, 0, 31),
        2 => rgb565(31, 63, 0),
        3 => rgb565(0, 63, 0),
        4 => rgb565(31, 0, 0),
        _ => rgb565(31, 63, 31),
    }
}

/// The style that the meshes change to for the `run`th time.
pub open spec fn style_of(run: int) -> MeshStyle {
    MeshStyle {
        cube_color: palette()[run % 6],
        octa_color: palette()[(run + 3) % 6],
        mode: modes()[run % 3],
    }
}

/// Counts frames, and says when the meshes change their style.
pub struct Animation {
    frame_count: u32,
    palette_idx: usize,
}

impl Animation {
    /// Frames so far.
    pub closed spec fn frames(self) -> u32 {
        self.frame_count
    }

    /// The palette moves on once for each run of frames.
    pub closed spec fn wf(self) -> bool {
        self.palette_idx == (self.frame_count / FRAMES_PER_STYLE) % 6
    }

    /// Before the first frame.
    pub fn new() -> (animation: Self)
        ensures
            animation.wf(),
            animation.frames() == 0,
    {
        Animation { frame_count: 0, palette_idx: 0 }
    }

    /// Frames so far.
    pub fn frame_count(&self) -> (n: u32)
        ensures
            n == self.frames(),
    {
        self.frame_count
    }

    /// Counts a frame. At the end of each run of frames the meshes move on to the
    /// next colours, three apart in the palette, and to the next mode.
    pub fn advance(&mut self) -> (style: Option<MeshStyle>)
        requires
            old(self).wf(),
            old(self).frames() < u32::MAX,
        ensures
            final(self).wf(),
            final(self).frames() == old(self).frames() + 1,
            style is Some <==> final(self).frames() % FRAMES_PER_STYLE == 0,
            style is Some ==> ({
                let run = (final(self).frames() / FRAMES_PER_STYLE) as int;
                style->0 == MeshStyle {
                    cube_color: palette()[run % 6],
                    octa_color: palette()[(run + 3) % 6],
                    mode: modes()[run % 3],
                }
            }),
            style is Some ==> style->0 == style_of(
                (final(self).frames() / FRAMES_PER_STYLE) as int,
            ),
    {
        self.frame_count += 1;
        if self.frame_count % FRAMES_PER_STYLE == 0 {
            self.palette_idx = (self.palette_idx + 1) % 6;
            let mode = match self.frame_count / FRAMES_PER_STYLE % 3 {
                0 => MeshMode::Lines,
                1 => MeshMode::Points,
                _ => MeshMode::Solid,
            };
            Some(
                MeshStyle {
                    cube_color: palette_color(self.palette_idx),
                    octa_color: palette_color((self.palette_idx + 3) % 6),
                    mode,
                },
            )
        } else {
            None
        }
    }
}

/// The two meshes never share a colour, and six changes later each has its colour
/// again.
pub proof fn law_palette_cycle(run: int)
    requires
        run >= 0,
    ensures
        palette()[run % 6] != palette()[(run + 3) % 6],
        palette()[(run + 6) % 6] == palette()[run % 6],
{
}

/// The statistics are drawn anew in this frame.
pub open spec fn stats_due(frame_count: u32) -> bool {
    frame_count % 10 == 0 || frame_count < 5
}

/// Whether the statistics are drawn anew in this frame.
pub fn should_update_stats(frame_count: u32) -> (yes: bool)
    ensures
        yes == (frame_count % 10 == 0 || frame_count < 5),
        yes == stats_due(frame_count),
{
    frame_count % 10 == 0 || frame_count < 5
}

/// Frames per second where a frame took `total_ms` milliseconds.
pub open spec fn frame_rate(total_ms: u64) -> int {
    1000int / (if total_ms < 1 {
        1int
    } else {
        total_ms as int
    })
}

/// Frames per second where a frame took `total_ms` milliseconds.
pub fn fps(total_ms: u64) -> (rate: u64)
    ensures
        rate == frame_rate(total_ms),
{
    1000 / (if total_ms < 1 {
        1
    } else {
        total_ms
    })
}

/// The statistics of a frame, before they are cut to the room there is.
pub open spec fn stats_text(total_ms: u64, render_us: u64, blit_us: u64) -> Seq<u8> {
    "FPS:".spec_bytes() + decimal(frame_rate(total_ms) as nat) + " 3D:".spec_bytes() + decimal(
        render_us as nat,
    ) + "us DMA:".spec_bytes() + decimal(blit_us as nat) + "us".spec_bytes()
}

/// The statistics of a frame: rate, time to render and time to send.
pub fn stats_line(total_ms: u64, render_us: u64, blit_us: u64) -> (line: ArrayString<64>)
    ensures
        line@ == cut(stats_text(total_ms, render_us, blit_us), 64),
{
    broadcast use lemma_cut_append;

    let mut line = ArrayString::<64>::new();
    assert(Seq::<u8>::empty() + "FPS:".spec_bytes() =~= "FPS:".spec_bytes());
    line.write_str("FPS:");
    line.write_u64(fps(total_ms));
    line.write_str(" 3D:");
    line.write_u64(render_us);
    line.write_str("us DMA:");
    line.write_u64(blit_us);
    line.write_str("us");
    line
}

/// The colour behind the meshes.
pub open spec fn background_color() -> u16 {
    rgb(2, 3, 6)
}

/// The colour behind the meshes.
pub fn background() -> (color: u16)
    ensures
        color == background_color(),
{
    rgb565(2, 3, 6)
}

/// The frame buffer with the title in it and nothing else.
pub open spec fn title_frame() -> Seq<u16> {
    text_drawn(
        Seq::new(VIEW_PIXELS as nat, |i: int| background_color()),
        320,
        240,
        "STM32WBA65RI FULL 320x240 DEMO"@,
        10,
        5,
        cyan(),
    )
}

/// Fills the frame buffer with the background, draws the title, and returns the
/// title's part for the panel.
pub fn draw_title(buffer: &mut [u16; VIEW_PIXELS]) -> (sent: Blit)
    ensures
        final(buffer)@ == title_frame(),
        forall|i: int|
            #![trigger final(buffer)@[i]]
            0 <= i < VIEW_PIXELS && !(5 <= row(i) < 20) ==> final(buffer)@[i] == background_color(),
        sent.area == (Area { x: 10, y: 5, width: 250, height: 15 }),
        sent.pixels@ == region_pixels(
            final(buffer)@,
            DirtyRect { min_x: 10, min_y: 5, max_x: 259, max_y: 19 },
            15,
        ),
{
    fill_all(buffer, background());
    proof {
        reveal_strlit("STM32WBA65RI FULL 320x240 DEMO");
    }
    draw_text(
        buffer,
        VIEW_WIDTH,
        VIEW_HEIGHT,
        "STM32WBA65RI FULL 320x240 DEMO",
        10,
        5,
        rgb565(0, 63, 31),
    );
    let rect = DirtyRect { min_x: 10, min_y: 5, max_x: 259, max_y: 19 };
    Blit { area: Area { x: 10, y: 5, width: 250, height: 15 }, pixels: read_region(buffer, &rect, 15) }
}

/// A frame buffer whose statistics were wiped.
pub open spec fn stats_wiped(pixels: Seq<u16>) -> Seq<u16> {
    Seq::new(
        pixels.len(),
        |i: int|
            if 10 <= column(i) < 240 && 220 <= row(i) < 238 {
                background_color()
            } else {
                pixels[i]
            },
    )
}

/// Wipes the statistics and draws those of a frame. No other row is touched.
pub fn draw_stats(
    buffer: &mut [u16; VIEW_PIXELS],
    total_ms: u64,
    render_us: u64,
    blit_us: u64,
)
    ensures
        final(buffer)@ == text_drawn(
            stats_wiped(old(buffer)@),
            320,
            240,
            shown(cut(stats_text(total_ms, render_us, blit_us), 64)),
            10,
            224,
            green(),
        ),
        forall|i: int|
            #![trigger final(buffer)@[i]]
            0 <= i < VIEW_PIXELS && !(220 <= row(i) < 238) ==> final(buffer)@[i] == old(buffer)@[i],
{
    let line = stats_line(total_ms, render_us, blit_us);
    let color: u16 = background();
    let mut y: usize = 220;
    while y < 238
        invariant
            220 <= y <= 238,
            color == background_color(),
            forall|i: int|
                0 <= i < VIEW_PIXELS ==> #[trigger] buffer@[i] == if 10 <= column(i) < 240 && 220
                    <= row(i) < y {
                    background_color()
                } else {
                    old(buffer)@[i]
                },
        decreases 238 - y,
    {
        let row_off: usize = y * VIEW_WIDTH;
        let ghost before = buffer@;
        let mut at: usize = row_off + 10;
        while at < row_off + 240
            invariant
                row_off == y * 320,
                y < 238,
                row_off + 10 <= at <= row_off + 240,
                forall|i: int|
                    0 <= i < VIEW_PIXELS ==> #[trigger] buffer@[i] == if row_off + 10 <= i < at {
                        color
                    } else {
                        before[i]
                    },
            decreases row_off + 240 - at,
        {
            buffer[at] = color;
            at += 1;
        }
        y += 1;
    }
    assert(buffer@ =~= stats_wiped(old(buffer)@));
    proof {
        lemma_stats_one_line(total_ms, render_us, blit_us);
        lemma_shown_len(line@);
    }
    draw_text(buffer, VIEW_WIDTH, VIEW_HEIGHT, line.as_str(), 10, 224, rgb565(0, 63, 0));
}

/// The statistics are one line of ASCII.
proof fn lemma_stats_one_line(total_ms: u64, render_us: u64, blit_us: u64)
    ensures
        !shown(cut(stats_text(total_ms, render_us, blit_us), 64)).contains('\n'),
{
    broadcast use is_ascii_spec_bytes;

    let bytes = stats_text(total_ms, render_us, blit_us);
    reveal_strlit("FPS:");
    reveal_strlit(" 3D:");
    reveal_strlit("us DMA:");
    reveal_strlit("us");
    assert(is_ascii("FPS:"));
    assert(is_ascii(" 3D:"));
    assert(is_ascii("us DMA:"));
    assert(is_ascii("us"));
    lemma_decimal_digits(frame_rate(total_ms) as nat);
    lemma_decimal_digits(render_us as nat);
    lemma_decimal_digits(blit_us as nat);
    assert forall|i: int| 0 <= i < bytes.len() implies 32 <= #[trigger] bytes[i] < 128 by {}
    let held = cut(bytes, 64);
    assert(forall|i: int| 0 <= i < held.len() ==> held[i] == bytes[i]);
    lemma_ascii_shown(held);
}

/// The statistics' part for the panel.
pub fn blit_stats(buffer: &[u16; VIEW_PIXELS]) -> (sent: Blit)
    ensures
        sent.area == (Area { x: 10, y: 220, width: 230, height: 18 }),
        sent.pixels@ == region_pixels(
            buffer@,
            DirtyRect { min_x: 10, min_y: 220, max_x: 239, max_y: 237 },
            18,
        ),
{
    let rect = DirtyRect { min_x: 10, min_y: 220, max_x: 239, max_y: 237 };
    Blit {
        area: Area { x: 10, y: 220, width: 230, height: 18 },
        pixels: read_region(buffer, &rect, 18),
    }
}

/// The statistics are never cut: whatever the numbers, they fit into their line.
pub proof fn law_statistics_fit(total_ms: u64, render_us: u64, blit_us: u64)
    ensures
        cut(stats_text(total_ms, render_us, blit_us), 64) == stats_text(
            total_ms,
            render_us,
            blit_us,
        ),
{
    broadcast use is_ascii_spec_bytes;

    reveal_strlit("FPS:");
    reveal_strlit(" 3D:");
    reveal_strlit("us DMA:");
    reveal_strlit("us");
    assert(is_ascii("FPS:"));
    assert(is_ascii(" 3D:"));
    assert(is_ascii("us DMA:"));
    assert(is_ascii("us"));
    assert(pow(10, 20) == 100_000_000_000_000_000_000int && pow(10, 4) == 10_000) by {
        reveal_with_fuel(pow, 21);
    }
    assert(frame_rate(total_ms) <= 1000) by (nonlinear_arith)
        requires
            frame_rate(total_ms) == 1000int / (if total_ms < 1 {
                1int
            } else {
                total_ms as int
            }),
    ;
    lemma_decimal_short(frame_rate(total_ms) as nat, 4);
    lemma_decimal_short(render_us as nat, 20);
    lemma_decimal_short(blit_us as nat, 20);
}

/// The meshes change their mode with every change of style, and have gone through
/// all of them after three.
pub proof fn law_modes_take_turns(run: int)
    requires
        run >= 0,
    ensures
        modes()[(run + 1) % 3] != modes()[run % 3],
        modes()[(run + 2) % 3] != modes()[run % 3],
        modes()[(run + 3) % 3] == modes()[run % 3],
{
}

/// No two of the six colours are the same.
pub proof fn law_palette_has_six_colours(i: int, j: int)
    requires
        0 <= i < j < 6,
    ensures
        palette().len() == 6,
        palette()[i] != palette()[j],
{
}

/// The frame rate is how often a frame of that time fits into a second, and a frame
/// of no time counts as one of a millisecond.
pub proof fn law_frames_fit_a_second(total_ms: u64)
    ensures
        frame_rate(0) == 1000,
        total_ms > 0 ==> frame_rate(total_ms) * total_ms <= 1000 < (frame_rate(total_ms) + 1)
            * total_ms,
{
    if total_ms > 0 {
        let ms = total_ms as int;
        lemma_fundamental_div_mod(1000, ms);
        lemma_mod_bound(1000, ms);
        assert(ms * (1000int / ms) == (1000int / ms) * ms) by (nonlinear_arith);
        assert((1000int / ms + 1) * ms == (1000int / ms) * ms + ms) by (nonlinear_arith);
    }
}

/// The statistics are wiped where they stand, and nowhere else.
pub proof fn law_wipe_is_bounded(pixels: Seq<u16>, x: int, y: int)
    requires
        pixels.len() == VIEW_PIXELS,
        0 <= x < 320,
        0 <= y < 240,
    ensures
        stats_wiped(pixels).len() == VIEW_PIXELS,
        10 <= x <= 239 && 220 <= y <= 237 ==> stats_wiped(pixels)[y * 320 + x] == rgb(2, 3, 6),
        !(10 <= x <= 239 && 220 <= y <= 237) ==> stats_wiped(pixels)[y * 320 + x] == pixels[y * 320
            + x],
{
    assert(column(y * 320 + x) == x && row(y * 320 + x) == y);
}

/// The styles take turns: the cube has the colour that the octahedron had three
/// changes before and will have three changes later, from one change to the next
/// everything is another, and after six changes the style is the same.
pub proof fn law_styles_take_turns(run: int)
    requires
        run >= 0,
    ensures
        style_of(run + 3).cube_color == style_of(run).octa_color,
        style_of(run + 3).octa_color == style_of(run).cube_color,
        style_of(run).cube_color != style_of(run).octa_color,
        style_of(run + 1).cube_color != style_of(run).cube_color,
        style_of(run + 1).mode != style_of(run).mode,
        style_of(run + 6) == style_of(run),
        style_of(6).cube_color == cyan(),
        style_of(1).cube_color == magenta(),
        style_of(2).cube_color == yellow(),
        style_of(3).cube_color == green(),
        style_of(4).cube_color == red(),
        style_of(5).cube_color == white(),
        style_of(3).mode is Lines && style_of(1).mode is Points && style_of(2).mode is Solid,
{
}

/// The statistics are drawn in each of the first five frames and then in every tenth:
/// of any ten frames in a row after those, in one.
pub proof fn law_statistics_are_due(frame_count: u32, next: u32)
    ensures
        frame_count < 5 ==> stats_due(frame_count),
        stats_due(10),
        5 <= frame_count && stats_due(frame_count) && frame_count < next < frame_count + 10
            ==> !stats_due(next),
        5 <= frame_count && next == frame_count + 10 ==> stats_due(next) == stats_due(frame_count),
{
}

/// The statistics are read back: between their words stand three runs of digits, which
/// stand for the frame rate, the time to render and the time to send.
pub proof fn law_statistics_read_back(total_ms: u64, render_us: u64, blit_us: u64)
    ensures
        exists|rate: Seq<u8>, render: Seq<u8>, send: Seq<u8>|
            #![trigger decimal_value(rate), decimal_value(render), decimal_value(send)]
            {
                &&& stats_text(total_ms, render_us, blit_us) == "FPS:".spec_bytes() + rate
                    + " 3D:".spec_bytes() + render + "us DMA:".spec_bytes() + send
                    + "us".spec_bytes()
                &&& decimal_value(rate) == frame_rate(total_ms)
                &&& decimal_value(render) == render_us
                &&& decimal_value(send) == blit_us
                &&& forall|i: int| 0 <= i < rate.len() ==> 48 <= #[trigger] rate[i] <= 57
                &&& forall|i: int| 0 <= i < render.len() ==> 48 <= #[trigger] render[i] <= 57
                &&& forall|i: int| 0 <= i < send.len() ==> 48 <= #[trigger] send[i] <= 57
            },
{
    assert(frame_rate(total_ms) >= 0) by (nonlinear_arith)
        requires
            frame_rate(total_ms) == 1000int / (if total_ms < 1 {
                1int
            } else {
                total_ms as int
            }),
    ;
    let rate = decimal(frame_rate(total_ms) as nat);
    let render = decimal(render_us as nat);
    let send = decimal(blit_us as nat);
    law_decimal_value(frame_rate(total_ms) as nat);
    law_decimal_value(render_us as nat);
    law_decimal_value(blit_us as nat);
    lemma_decimal_digits(frame_rate(total_ms) as nat);
    lemma_decimal_digits(render_us as nat);
    lemma_decimal_digits(blit_us as nat);
    assert(decimal_value(rate) == frame_rate(total_ms));
    assert(decimal_value(render) == render_us);
    assert(decimal_value(send) == blit_us);
}

} // verus!
