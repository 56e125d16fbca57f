//! What the agent does with the host's bytes and with the touch panel.

use vstd::prelude::*;

use embedded_gui_live::Decoder;

use crate::studio::link::{
    checked, checksum, encode, encoded, frame, frame_rect_header, frame_with, hunting, last_body,
    last_tag, law_frame_is_taken, law_oversized_frame_is_a_fault, little_endian, new_decoder,
    parsed, proto_version, push_byte, pushed, read_message, received, under_way, Glimpse, Reply,
    Request, RequestView, DEC_CAP,
};
use crate::studio::panel::{
    command_steps, heard, law_rectangle_is_heard, names, paint_steps, window_steps, BusStep,
    RectJob, MAX_RECT_BYTES,
};
use crate::studio::touch::{last_after, poll_touch, report, TouchReading, PANEL_H, PANEL_W};

verus! {

/// Work that follows from a message.
pub enum Action {
    /// Bytes for the host.
    Send(Vec<u8>),
    /// A rectangle for the panel.
    Paint(RectJob),
}

/// What an action does.
pub enum ActionView {
    Send(Seq<u8>),
    Paint(RectJob),
}

impl View for Action {
    type V = ActionView;

    open spec fn view(&self) -> ActionView {
        match *self {
            Action::Send(bytes) => ActionView::Send(bytes@),
            Action::Paint(job) => ActionView::Paint(job),
        }
    }
}

/// Pixels of two bytes with the two swapped, in a buffer that is zero after them.
pub open spec fn swapped(pixels: Seq<u8>) -> Seq<u8> {
    Seq::new(
        MAX_RECT_BYTES as nat,
        |i: int|
            if i >= pixels.len() / 2 * 2 {
                0u8
            } else if i % 2 == 0 {
                pixels[i + 1]
            } else {
                pixels[i - 1]
            },
    )
}

/// The job for a rectangle of pixels with their low byte first.
pub open spec fn is_job(job: RectJob, x: u16, y: u16, w: u16, h: u16, pixels: Seq<u8>) -> bool {
    &&& job.x == x
    &&& job.y == y
    &&& job.w == w
    &&& job.h == h
    &&& job.len == pixels.len()
    &&& job.pixels_be@ == swapped(pixels)
}

/// Makes the job for a rectangle: every pixel gets its high byte first. `None`
/// where the pixels are more than a job has room for.
pub fn rect_job(x: u16, y: u16, w: u16, h: u16, pixels: &[u8]) -> (job: Option<RectJob>)
    ensures
        job is Some <==> pixels@.len() <= MAX_RECT_BYTES,
        job is Some ==> job->0.wf() && is_job(job->0, x, y, w, h, pixels@),
{
    if pixels.len() > MAX_RECT_BYTES {
        return None;
    }
    let mut job = RectJob {
        x,
        y,
        w,
        h,
        len: pixels.len(),
        pixels_be: [0u8; MAX_RECT_BYTES],
    };
    let pairs: usize = pixels.len() / 2;
    let mut i: usize = 0;
    while i < pairs
        invariant
            i <= pairs,
            pairs == pixels@.len() / 2,
            pixels@.len() <= MAX_RECT_BYTES,
            job.x == x,
            job.y == y,
            job.w == w,
            job.h == h,
            job.len == pixels@.len(),
            forall|j: int|
                0 <= j < MAX_RECT_BYTES ==> #[trigger] job.pixels_be@[j] == if j < 2 * i {
                    swapped(pixels@)[j]
                } else {
                    0u8
                },
        decreases pairs - i,
    {
        job.pixels_be[2 * i] = pixels[2 * i + 1];
        job.pixels_be[2 * i + 1] = pixels[2 * i];
        i += 1;
    }
    assert(job.pixels_be@ =~= swapped(pixels@));
    Some(job)
}

/// The frame of a message to the host.
pub fn reply_frame(reply: Reply) -> (frame: Vec<u8>)
    ensures
        frame@ == encoded(reply),
{
    let mut out: [u8; 32] = [0u8; 32];
    proof {
        lemma_encoded_len(reply);
    }
    let n: Option<usize> = encode(reply, &mut out);
    let mut frame: Vec<u8> = Vec::new();
    if let Some(len) = n {
        let mut i: usize = 0;
        while i < len
            invariant
                i <= len <= 32,
                frame@ == out@.take(i as int),
            decreases len - i,
        {
            frame.push(out[i]);
            assert(frame@ =~= out@.take(i + 1));
            i += 1;
        }
        assert(frame@ =~= encoded(reply));
    }
    frame
}

proof fn lemma_encoded_len(reply: Reply)
    ensures
        encoded(reply).len() <= 19,
{
    reveal_with_fuel(little_endian, 5);
}

/// The agent's announcement: its panel and the largest rectangle it takes.
pub open spec fn ready() -> Reply {
    Reply::Ready { proto: 1, fb_w: PANEL_W, fb_h: PANEL_H, max_rect_bytes: (DEC_CAP - 12) as u32 }
}

/// What a message is answered with: the host's announcement with the agent's, a
/// rectangle that a job has room for with its painting, a request for a sign of
/// life with one, and any other message with nothing.
pub open spec fn answers(request: RequestView, action: Option<ActionView>) -> bool {
    match request {
        RequestView::Hello => action == Some(ActionView::Send(encoded(ready()))),
        RequestView::FrameRect { x, y, w, h, pixels } => if pixels.len() <= MAX_RECT_BYTES {
            action matches Some(ActionView::Paint(job)) && job.wf() && is_job(
                job,
                x,
                y,
                w,
                h,
                pixels,
            )
        } else {
            action is None
        },
        RequestView::Ping => action == Some(ActionView::Send(encoded(Reply::Pong))),
        RequestView::Other => action is None,
    }
}

/// The view of an action, if there is one.
pub open spec fn seen(action: Option<Action>) -> Option<ActionView> {
    match action {
        Some(a) => Some(a@),
        None => None,
    }
}

/// Answers a message.
pub fn handle(request: Request) -> (action: Option<Action>)
    ensures
        answers(request@, seen(action)),
{
    match request {
        Request::Hello => {
            let max_rect_bytes: u32 = DEC_CAP as u32 - frame_rect_header() as u32;
            let reply = Reply::Ready {
                proto: proto_version(),
                fb_w: PANEL_W,
                fb_h: PANEL_H,
                max_rect_bytes,
            };
            Some(Action::Send(reply_frame(reply)))
        },
        Request::FrameRect { x, y, w, h, pixels } => {
            match rect_job(x, y, w, h, pixels.as_slice()) {
                Some(job) => Some(Action::Paint(job)),
                None => None,
            }
        },
        Request::Ping => Some(Action::Send(reply_frame(Reply::Pong))),
        Request::Other => None,
    }
}

/// What follows from the last of the bytes from the host: where it completes a
/// message, that message is answered, and nothing happens otherwise.
pub open spec fn follows_from(bytes: Seq<u8>, action: Option<ActionView>) -> bool {
    if pushed(bytes) == Ok::<bool, ()>(true) {
        match parsed(last_tag(bytes), last_body(bytes)) {
            Some(request) => answers(request, action),
            None => action is None,
        }
    } else {
        action is None
    }
}

/// The agent: the stream from the host, and the contact that stands reported.
pub struct Agent {
    decoder: Decoder<4096>,
    glimpse: Glimpse,
    last_touch: Option<(u16, u16)>,
}

impl Agent {
    /// The bytes from the host so far.
    pub closed spec fn bytes(self) -> Seq<u8> {
        received(self.decoder)
    }

    /// The contact that stands reported.
    pub closed spec fn contact(self) -> Option<(u16, u16)> {
        self.last_touch
    }

    /// What is remembered of the frame under way is what has come of it.
    pub closed spec fn wf(self) -> bool {
        self.glimpse.is_of(under_way(self.bytes()))
    }

    /// No bytes, no contact.
    pub fn new() -> (agent: Self)
        ensures
            agent.wf(),
            agent.bytes() == Seq::<u8>::empty(),
            agent.contact() is None,
    {
        Agent { decoder: new_decoder(), glimpse: Glimpse::new(), last_touch: None }
    }

    /// A host has connected: no contact stands reported to it. The stream goes on.
    pub fn connect(&mut self)
        ensures
            final(self).wf() == old(self).wf(),
            final(self).bytes() == old(self).bytes(),
            final(self).contact() is None,
    {
        self.last_touch = None;
    }

    /// Takes a byte from the host. A byte that completes a message is answered as
    /// the message asks for, and any other is not.
    pub fn on_byte(&mut self, byte: u8) -> (action: Option<Action>)
        requires
            old(self).wf(),
        ensures
            final(self).wf(),
            final(self).bytes() == old(self).bytes().push(byte),
            final(self).contact() == old(self).contact(),
            follows_from(final(self).bytes(), seen(action)),
    {
        let ghost before = self.bytes();
        let complete = push_byte(&mut self.decoder, byte);
        assert(self.bytes().drop_last() =~= before);
        let mut action: Option<Action> = None;
        if let Ok(true) = complete {
            if self.glimpse.fits(Ghost(self.bytes())) {
                action = match read_message(&self.decoder) {
                    Some(request) => handle(request),
                    None => None,
                };
            }
        }
        self.glimpse.note(byte, complete, Ghost(before));
        action
    }

    /// Takes a reading of the touch panel, and returns the frame of the report
    /// where there is one.
    pub fn on_touch(&mut self, reading: TouchReading) -> (frame: Option<Vec<u8>>)
        ensures
            final(self).wf() == old(self).wf(),
            final(self).bytes() == old(self).bytes(),
            final(self).contact() == last_after(old(self).contact(), reading),
            match report(old(self).contact(), reading) {
                Some(r) => frame is Some && frame->0@ == encoded(
                    Reply::Touch { x: r.x, y: r.y, pressed: r.pressed },
                ),
                None => frame is None,
            },
    {
        match poll_touch(&mut self.last_touch, reading) {
            Some(r) => Some(reply_frame(Reply::Touch { x: r.x, y: r.y, pressed: r.pressed })),
            None => None,
        }
    }
}

/// Swapping the bytes of every pixel twice gives them back.
pub proof fn law_swap_twice(pixels: Seq<u8>)
    requires
        pixels.len() % 2 == 0,
        pixels.len() <= MAX_RECT_BYTES,
    ensures
        swapped(swapped(pixels).take(pixels.len() as int)).take(pixels.len() as int) == pixels,
{
    assert(swapped(swapped(pixels).take(pixels.len() as int)).take(pixels.len() as int) =~= pixels);
}

/// A tile of up to 40 by 40 pixels that lies on the panel is painted: its job
/// exists, and what it does to the panel is to set the tile's window and to write
/// each of its pixels once, high byte first.
pub proof fn law_tile_is_painted(
    x: u16,
    y: u16,
    w: u16,
    h: u16,
    pixels: Seq<u8>,
    action: Option<ActionView>,
)
    requires
        0 < w <= 40,
        0 < h <= 40,
        x + w <= PANEL_W,
        y + h <= PANEL_H,
        pixels.len() == w * h * 2,
        answers(RequestView::FrameRect { x, y, w, h, pixels }, action),
    ensures
        action matches Some(ActionView::Paint(job)) && paint_steps(job) == window_steps(
            x as int,
            y as int,
            w as int,
            h as int,
        ) + command_steps(0x2C, seq![]) + seq![
            BusStep::CsLow,
            BusStep::DcHigh,
            BusStep::Write(
                Seq::new(
                    pixels.len(),
                    |i: int|
                        if i % 2 == 0 {
                            pixels[i + 1]
                        } else {
                            pixels[i - 1]
                        },
                ),
            ),
            BusStep::CsHigh,
        ],
{
    assert(w * h <= 1600) by (nonlinear_arith)
        requires
            w <= 40,
            h <= 40,
    ;
    if let Some(ActionView::Paint(job)) = action {
        assert(job.pixels_be@.take(job.len as int) =~= Seq::new(
            pixels.len(),
            |i: int|
                if i % 2 == 0 {
                    pixels[i + 1]
                } else {
                    pixels[i - 1]
                },
        ));
    }
}

/// A rectangle that is empty or reaches beyond the panel leaves the panel alone.
pub proof fn law_stray_rectangle_is_ignored(
    x: u16,
    y: u16,
    w: u16,
    h: u16,
    pixels: Seq<u8>,
    action: Option<ActionView>,
)
    requires
        w == 0 || h == 0 || x + w > PANEL_W || y + h > PANEL_H,
        answers(RequestView::FrameRect { x, y, w, h, pixels }, action),
    ensures
        action matches Some(ActionView::Paint(job)) ==> paint_steps(job) == Seq::<BusStep>::empty(),
        !(action is Some && action->0 is Send),
{
}

/// Wherever the agent looks for a frame, a frame is answered at its last byte as its
/// message asks for, and at no other byte. A frame with a wrong checksum is not
/// answered at all.
pub proof fn law_frame_is_answered(
    before: Seq<u8>,
    tag: u8,
    body: Seq<u8>,
    sum: u16,
    n: int,
    at_end: Option<ActionView>,
    inside: Option<ActionView>,
    broken: Option<ActionView>,
)
    requires
        hunting(before),
        body.len() <= 4096,
        0 < n < 9 + body.len(),
        sum != checksum(checked(tag, body)),
        follows_from(before + frame(tag, body), at_end),
        follows_from(before + frame(tag, body).take(n), inside),
        follows_from(before + frame_with(tag, body, sum), broken),
    ensures
        match parsed(tag, body) {
            Some(request) => answers(request, at_end),
            None => at_end is None,
        },
        inside is None,
        broken is None,
{
    law_frame_is_taken(before, tag, body, sum, n);
    law_frame_is_taken(before, tag, body, checksum(checked(tag, body)), n);
}

/// A frame that is too long for the decoder is not answered.
pub proof fn law_oversized_frame_is_ignored(
    before: Seq<u8>,
    tag: u8,
    len: u32,
    action: Option<ActionView>,
)
    requires
        hunting(before),
        len > 4096,
        follows_from(
            before + (seq![0xE6u8, 0x71u8, tag] + little_endian(len as int, 4)),
            action,
        ),
    ensures
        action is None,
{
    law_oversized_frame_is_a_fault(before, tag, len);
}

/// Every pixel has its two bytes swapped and stays at its place, and the buffer is
/// zero after the last whole pixel.
pub proof fn law_each_pixel_is_swapped(pixels: Seq<u8>, p: int, i: int)
    requires
        pixels.len() <= 3200,
        0 <= p && 2 * p + 1 < pixels.len(),
        pixels.len() - 1 <= i < 3200,
        pixels.len() % 2 == 0 ==> i >= pixels.len(),
    ensures
        swapped(pixels).len() == 3200,
        swapped(pixels)[2 * p] == pixels[2 * p + 1],
        swapped(pixels)[2 * p + 1] == pixels[2 * p],
        swapped(pixels)[i] == 0,
{
}

/// A rectangle of any shape that lies on the panel reaches it: the panel hears its
/// corners, and for each pixel first its high byte, which comes second from the host,
/// and then its low byte.
pub proof fn law_rectangle_reaches_panel(
    x: u16,
    y: u16,
    w: u16,
    h: u16,
    pixels: Seq<u8>,
    action: Option<ActionView>,
    data: bool,
    p: int,
)
    requires
        0 < w && 0 < h,
        x + w <= 320,
        y + h <= 240,
        pixels.len() == 2 * (w * h),
        pixels.len() <= 3200,
        0 <= p < w * h,
        answers(RequestView::FrameRect { x, y, w, h, pixels }, action),
    ensures
        action matches Some(ActionView::Paint(job)) && {
            let all = heard(paint_steps(job), false, data);
            &&& all.len() == 6
            &&& names(all[1].1, x as int, x + w - 1)
            &&& names(all[3].1, y as int, y + h - 1)
            &&& all[5].0 && all[5].1.len() == pixels.len()
            &&& all[5].1[2 * p] == pixels[2 * p + 1]
            &&& all[5].1[2 * p + 1] == pixels[2 * p]
        },
{
    if let Some(ActionView::Paint(job)) = action {
        law_rectangle_is_heard(job, data);
    }
}

/// A rectangle with more bytes than a job has room for is not answered, and no
/// rectangle is ever answered to the host.
pub proof fn law_large_rectangle_is_dropped(
    x: u16,
    y: u16,
    w: u16,
    h: u16,
    pixels: Seq<u8>,
    action: Option<ActionView>,
)
    requires
        answers(RequestView::FrameRect { x, y, w, h, pixels }, action),
    ensures
        action is None <==> pixels.len() > 3200,
        action matches Some(a) ==> a is Paint,
{
}

/// The host's announcement and its request for a sign of life are each answered with
/// one message of the agent's, which the host can tell apart, and nothing else that
/// is not a rectangle is answered.
pub proof fn law_host_is_answered(request: RequestView, action: Option<ActionView>)
    requires
        answers(request, action),
        !(request is FrameRect),
    ensures
        request is Hello ==> action == Some(
            ActionView::Send(
                encoded(
                    Reply::Ready { proto: 1, fb_w: 320, fb_h: 240, max_rect_bytes: 4084 },
                ),
            ),
        ),
        request is Ping ==> action == Some(ActionView::Send(encoded(Reply::Pong))),
        request is Other ==> action is None,
{
}

} // verus!
