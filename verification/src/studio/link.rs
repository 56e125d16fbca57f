//! The codec of the link to the host, `embedded-gui-live`.

use vstd::prelude::*;

use embedded_gui_live::{Decoder, Msg, FRAME_RECT_HEADER, PROTO_VERSION};

verus! {

/// Bytes that the decoder has room for in one message.
pub const DEC_CAP: usize = 4096;

/// The decoder of `embedded-gui-live`, which takes a stream byte by byte.
#[verifier::external_type_specification]
#[verifier::external_body]
pub struct ExDecoder<const CAP: usize>(embedded_gui_live::Decoder<CAP>);

/// A message from the host, as far as the agent reads it.
pub enum Request {
    /// The host announces itself.
    Hello,
    /// A rectangle of pixels, low byte first.
    FrameRect { x: u16, y: u16, w: u16, h: u16, pixels: Vec<u8> },
    /// The host asks for a sign of life.
    Ping,
    /// Any other message.
    Other,
}

/// What a message says.
pub enum RequestView {
    Hello,
    FrameRect { x: u16, y: u16, w: u16, h: u16, pixels: Seq<u8> },
    Ping,
    Other,
}

impl View for Request {
    type V = RequestView;

    open spec fn view(&self) -> RequestView {
        match *self {
            Request::Hello => RequestView::Hello,
            Request::FrameRect { x, y, w, h, pixels } => RequestView::FrameRect {
                x,
                y,
                w,
                h,
                pixels: pixels@,
            },
            Request::Ping => RequestView::Ping,
            Request::Other => RequestView::Other,
        }
    }
}

/// A message to the host.
#[derive(Clone, Copy, Debug, PartialEq, Eq, Structural)]
pub enum Reply {
    /// The answer to the host's announcement.
    Ready { proto: u16, fb_w: u16, fb_h: u16, max_rect_bytes: u32 },
    /// A sign of life.
    Pong,
    /// A touch of the panel, or its end.
    Touch { x: u16, y: u16, pressed: bool },
}

/// The bytes that the decoder has taken since it was made.
pub uninterp spec fn received(decoder: Decoder<4096>) -> Seq<u8>;

/// A number of `n` bytes with its low byte first.
pub open spec fn little_endian(v: int, n: nat) -> Seq<u8>
    decreases n,
{
    if n == 0 {
        seq![]
    } else {
        seq![(v % 256) as u8] + little_endian(v / 256, (n - 1) as nat)
    }
}

/// The number of two bytes from index `i` on, low byte first.
pub open spec fn word(bytes: Seq<u8>, i: int) -> u16 {
    (bytes[i] + 256 * bytes[i + 1]) as u16
}

/// The number of four bytes from index `i` on, low byte first.
pub open spec fn long(bytes: Seq<u8>, i: int) -> int {
    bytes[i] + 256 * bytes[i + 1] + 65536 * bytes[i + 2] + 16777216 * bytes[i + 3]
}

/// A checksum after `n` of its bits were shifted out.
pub open spec fn shifted(sum: u16, n: nat) -> u16
    decreases n,
{
    if n == 0 {
        sum
    } else {
        let s = shifted(sum, (n - 1) as nat);
        if s & 0x8000 != 0 {
            (s << 1) ^ 0x1021
        } else {
            s << 1
        }
    }
}

/// The checksum of a frame, CRC-16/CCITT-FALSE.
pub open spec fn checksum(bytes: Seq<u8>) -> u16
    decreases bytes.len(),
{
    if bytes.len() == 0 {
        0xFFFF
    } else {
        shifted(checksum(bytes.drop_last()) ^ ((bytes.last() as u16) << 8), 8)
    }
}

/// The part of a frame that its checksum covers: tag, length of the body, body.
pub open spec fn checked(tag: u8, body: Seq<u8>) -> Seq<u8> {
    seq![tag] + little_endian(body.len() as int, 4) + body
}

/// A frame with a checksum: two fixed bytes come first.
pub open spec fn frame_with(tag: u8, body: Seq<u8>, sum: u16) -> Seq<u8> {
    seq![0xE6u8, 0x71u8] + checked(tag, body) + little_endian(sum as int, 2)
}

/// A frame on the wire.
pub open spec fn frame(tag: u8, body: Seq<u8>) -> Seq<u8> {
    frame_with(tag, body, checksum(checked(tag, body)))
}

/// What the decoder answers to the last byte of a frame that has come this far: a
/// fault where the frame's length is more than it has room for, and at the frame's
/// end whether the checksum is right.
pub open spec fn answer(part: Seq<u8>) -> Result<bool, ()> {
    let n = part.len() as int;
    if n == 7 && long(part, 3) > 4096 {
        Err(())
    } else if n >= 9 && n == 9 + long(part, 3) {
        if word(part, n - 2) == checksum(part.subrange(2, n - 2)) {
            Ok(true)
        } else {
            Err(())
        }
    } else {
        Ok(false)
    }
}

/// The part of a frame that these bytes end with and that further bytes may
/// complete, empty where the decoder looks for the first byte of a frame.
pub open spec fn under_way(bytes: Seq<u8>) -> Seq<u8>
    decreases bytes.len(),
{
    if bytes.len() == 0 {
        seq![]
    } else {
        let part = under_way(bytes.drop_last()).push(bytes.last());
        if part.len() <= 2 && part.last() == 0xE6 {
            seq![0xE6u8]
        } else if part.len() == 1 || part.len() == 2 && part.last() != 0x71 || answer(part) != Ok::<
            bool,
            (),
        >(false) {
            seq![]
        } else {
            part
        }
    }
}

/// The part of a frame that the last of these bytes was taken into.
pub open spec fn last_part(bytes: Seq<u8>) -> Seq<u8> {
    under_way(bytes.drop_last()).push(bytes.last())
}

/// What a decoder that has taken these bytes answered to the last of them: whether
/// it completed a message, or a fault in the stream.
pub open spec fn pushed(bytes: Seq<u8>) -> Result<bool, ()> {
    answer(last_part(bytes))
}

/// After these bytes the decoder looks for the start of a frame: the next two
/// bytes start one, if they are the fixed ones.
pub open spec fn hunting(bytes: Seq<u8>) -> bool {
    under_way(bytes).len() <= 1
}

/// The tag of the frame that these bytes end with.
pub open spec fn last_tag(bytes: Seq<u8>) -> u8 {
    last_part(bytes)[2]
}

/// The body of the frame that these bytes end with.
pub open spec fn last_body(bytes: Seq<u8>) -> Seq<u8> {
    last_part(bytes).subrange(7, last_part(bytes).len() - 2)
}

/// The message of a frame, `None` where the body does not have the length that its
/// tag asks for, or the tag is unknown.
pub open spec fn parsed(tag: u8, body: Seq<u8>) -> Option<RequestView> {
    let n = body.len();
    if tag == 0x01 && n == 6 {
        Some(RequestView::Hello)
    } else if tag == 0x03 && n >= 12 && n - 12 == word(body, 8) * word(body, 10) * 2 {
        Some(
            RequestView::FrameRect {
                x: word(body, 4),
                y: word(body, 6),
                w: word(body, 8),
                h: word(body, 10),
                pixels: body.skip(12),
            },
        )
    } else if tag == 0x05 && n == 0 {
        Some(RequestView::Ping)
    } else if tag == 0x02 && n == 5 || tag == 0x04 && n == 4 || tag == 0x81 && n == 10 || tag
        == 0x82 && n == 4 || tag == 0x83 && n == 6 || tag == 0x84 && n == 5 || tag == 0x85 && n
        == 0 {
        Some(RequestView::Other)
    } else {
        None
    }
}

/// The bytes of a rectangle can be counted in 32 bits, whatever its body holds.
pub open spec fn size_fits(tag: u8, body: Seq<u8>) -> bool {
    tag == 0x03 && body.len() >= 12 ==> word(body, 8) * word(body, 10) * 2 <= u32::MAX
}

/// `Decoder::new`: a decoder that has taken nothing.
#[verifier::external_body]
pub(crate) fn new_decoder() -> (decoder: Decoder<4096>)
    ensures
        received(decoder) == Seq::<u8>::empty(),
{
    Decoder::new()
}

/// `Decoder::push`: takes one byte. It completes a message where the bytes end with
/// a whole frame, and is a fault at the end of a frame whose checksum is wrong and
/// at a length beyond the decoder's room. Which fault it was is left out.
#[verifier::external_body]
pub(crate) fn push_byte(decoder: &mut Decoder<4096>, byte: u8) -> (complete: Result<bool, ()>)
    ensures
        received(*final(decoder)) == received(*old(decoder)).push(byte),
        complete == pushed(received(*final(decoder))),
{
    decoder.push(byte).map_err(|_| ())
}

/// `Decoder::message`: reads the message of the frame that the last byte completed.
/// A rectangle whose bytes cannot be counted in 32 bits is left out: the count is a
/// `usize`, and may overflow.
#[verifier::external_body]
pub(crate) fn read_message(decoder: &Decoder<4096>) -> (request: Option<Request>)
    requires
        pushed(received(*decoder)) == Ok::<bool, ()>(true),
        size_fits(last_tag(received(*decoder)), last_body(received(*decoder))),
    ensures
        match request {
            Some(r) => parsed(last_tag(received(*decoder)), last_body(received(*decoder))) == Some(
                r@,
            ),
            None => parsed(last_tag(received(*decoder)), last_body(received(*decoder))) is None,
        },
{
    match decoder.message() {
        Ok(Msg::Hello { .. }) => Some(Request::Hello),
        Ok(Msg::FrameRect { x, y, w, h, pixels, .. }) => {
            Some(Request::FrameRect { x, y, w, h, pixels: pixels.to_vec() })
        },
        Ok(Msg::Ping) => Some(Request::Ping),
        Ok(
            Msg::FrameBegin { .. } | Msg::FrameEnd { .. } | Msg::Ready { .. } | Msg::Ack { .. }
            | Msg::Nack { .. } | Msg::Touch { .. } | Msg::Pong,
        ) => Some(Request::Other),
        Err(_) => None,
    }
}

/// The tag byte of a message.
pub open spec fn tag(reply: Reply) -> u8 {
    match reply {
        Reply::Ready { .. } => 0x81,
        Reply::Touch { .. } => 0x84,
        Reply::Pong => 0x85,
    }
}

/// The body of a message.
pub open spec fn body(reply: Reply) -> Seq<u8> {
    match reply {
        Reply::Ready { proto, fb_w, fb_h, max_rect_bytes } => little_endian(proto as int, 2)
            + little_endian(fb_w as int, 2) + little_endian(fb_h as int, 2) + little_endian(
            max_rect_bytes as int,
            4,
        ),
        Reply::Touch { x, y, pressed } => little_endian(x as int, 2) + little_endian(y as int, 2)
            + seq![
            if pressed {
                1u8
            } else {
                0u8
            },
        ],
        Reply::Pong => seq![],
    }
}

/// The frame of a message on the wire.
pub open spec fn encoded(reply: Reply) -> Seq<u8> {
    frame(tag(reply), body(reply))
}

/// `Msg::encode`: writes the frame of a message, where there is room for it, and
/// nothing where there is not.
#[verifier::external_body]
pub(crate) fn encode(reply: Reply, out: &mut [u8]) -> (n: Option<usize>)
    ensures
        n is Some <==> encoded(reply).len() <= old(out)@.len(),
        n is Some ==> {
            &&& n->0 == encoded(reply).len()
            &&& final(out)@ == encoded(reply) + old(out)@.skip(n->0 as int)
        },
        n is None ==> final(out)@ == old(out)@,
{
    let msg = match reply {
        Reply::Ready { proto, fb_w, fb_h, max_rect_bytes } => {
            Msg::Ready { proto, fb_w, fb_h, max_rect_bytes }
        },
        Reply::Pong => Msg::Pong,
        Reply::Touch { x, y, pressed } => Msg::Touch { x, y, pressed },
    };
    msg.encode(out).ok()
}

/// `PROTO_VERSION`: the version of the protocol.
#[verifier::external_body]
pub(crate) fn proto_version() -> (version: u16)
    ensures
        version == 1,
{
    PROTO_VERSION
}

/// `FRAME_RECT_HEADER`: bytes of a rectangle's message before its pixels.
#[verifier::external_body]
pub(crate) fn frame_rect_header() -> (n: usize)
    ensures
        n == 12,
{
    FRAME_RECT_HEADER
}

/// The body of the host's rectangle: its frame's number, its place and size, and
/// its pixels.
pub open spec fn rect_body(
    seq: u32,
    x: u16,
    y: u16,
    w: u16,
    h: u16,
    pixels: Seq<u8>,
) -> Seq<u8> {
    little_endian(seq as int, 4) + little_endian(x as int, 2) + little_endian(y as int, 2)
        + little_endian(w as int, 2) + little_endian(h as int, 2) + pixels
}

/// A number of two bytes is read back.
proof fn lemma_word(v: u16)
    ensures
        little_endian(v as int, 2).len() == 2,
        word(little_endian(v as int, 2), 0) == v,
{
    reveal_with_fuel(little_endian, 3);
}

/// What the host writes is read back: a rectangle with two bytes for each of its
/// pixels, its announcement, and its request for a sign of life.
pub proof fn law_host_messages_read_back(
    seq: u32,
    x: u16,
    y: u16,
    w: u16,
    h: u16,
    pixels: Seq<u8>,
    hello: Seq<u8>,
)
    requires
        pixels.len() == w * h * 2,
        hello.len() == 6,
    ensures
        parsed(0x03, rect_body(seq, x, y, w, h, pixels)) == Some(
            RequestView::FrameRect { x, y, w, h, pixels },
        ),
        rect_body(seq, x, y, w, h, pixels).len() == 12 + pixels.len(),
        parsed(0x01, hello) == Some(RequestView::Hello),
        parsed(0x05, Seq::empty()) == Some(RequestView::Ping),
{
    let number = little_endian(seq as int, 4);
    assert(number.len() == 4) by {
        reveal_with_fuel(little_endian, 5);
    }
    lemma_word(x);
    lemma_word(y);
    lemma_word(w);
    lemma_word(h);
    let body = rect_body(seq, x, y, w, h, pixels);
    assert(word(body, 4) == word(little_endian(x as int, 2), 0));
    assert(word(body, 6) == word(little_endian(y as int, 2), 0));
    assert(word(body, 8) == word(little_endian(w as int, 2), 0));
    assert(word(body, 10) == word(little_endian(h as int, 2), 0));
    assert(body.skip(12) =~= pixels);
}

proof fn lemma_long(v: u32)
    ensures
        little_endian(v as int, 4).len() == 4,
        long(little_endian(v as int, 4), 0) == v,
{
    reveal_with_fuel(little_endian, 5);
}

proof fn lemma_body_len(reply: Reply)
    ensures
        body(reply).len() == match reply {
            Reply::Ready { .. } => 10nat,
            Reply::Touch { .. } => 5nat,
            Reply::Pong => 0nat,
        },
{
    match reply {
        Reply::Ready { proto, fb_w, fb_h, max_rect_bytes } => {
            lemma_word(proto);
            lemma_word(fb_w);
            lemma_word(fb_h);
            lemma_long(max_rect_bytes);
        },
        Reply::Touch { x, y, pressed } => {
            lemma_word(x);
            lemma_word(y);
        },
        Reply::Pong => {},
    }
}

/// Two bodies with the same bytes belong to the same message, where their tags are
/// the same.
proof fn lemma_bodies_are_told_apart(a: Reply, b: Reply)
    requires
        tag(a) == tag(b),
        body(a) == body(b),
    ensures
        a == b,
{
    match (a, b) {
        (
            Reply::Ready { proto: p1, fb_w: w1, fb_h: h1, max_rect_bytes: m1 },
            Reply::Ready { proto: p2, fb_w: w2, fb_h: h2, max_rect_bytes: m2 },
        ) => {
            lemma_word(p1);
            lemma_word(p2);
            lemma_word(w1);
            lemma_word(w2);
            lemma_word(h1);
            lemma_word(h2);
            lemma_long(m1);
            lemma_long(m2);
            assert(word(body(a), 0) == p1 && word(body(b), 0) == p2);
            assert(word(body(a), 2) == w1 && word(body(b), 2) == w2);
            assert(word(body(a), 4) == h1 && word(body(b), 4) == h2);
            assert(body(a).subrange(6, 10) =~= little_endian(m1 as int, 4));
            assert(body(b).subrange(6, 10) =~= little_endian(m2 as int, 4));
        },
        (
            Reply::Touch { x: x1, y: y1, pressed: p1 },
            Reply::Touch { x: x2, y: y2, pressed: p2 },
        ) => {
            lemma_word(x1);
            lemma_word(x2);
            lemma_word(y1);
            lemma_word(y2);
            assert(word(body(a), 0) == x1 && word(body(b), 0) == x2);
            assert(word(body(a), 2) == y1 && word(body(b), 2) == y2);
            assert(body(a)[4] == if p1 {
                1u8
            } else {
                0u8
            });
            assert(body(b)[4] == if p2 {
                1u8
            } else {
                0u8
            });
        },
        _ => {},
    }
}

/// The host can tell the agent's messages apart: two with the same frame are the
/// same message.
pub proof fn law_replies_are_told_apart(a: Reply, b: Reply)
    requires
        encoded(a) == encoded(b),
    ensures
        a == b,
{
    lemma_body_len(a);
    lemma_body_len(b);
    reveal_with_fuel(little_endian, 5);
    assert(encoded(a)[2] == tag(a) && encoded(b)[2] == tag(b));
    let n = body(a).len() as int;
    assert(encoded(a).subrange(7, 7 + n) =~= body(a));
    assert(encoded(b).subrange(7, 7 + n) =~= body(b));
    lemma_bodies_are_told_apart(a, b);
}

/// A frame under way has room in the decoder, and is not at its end.
proof fn lemma_room(bytes: Seq<u8>)
    ensures
        under_way(bytes).len() >= 7 ==> long(under_way(bytes), 3) <= 4096 && under_way(bytes).len()
            < 9 + long(under_way(bytes), 3),
    decreases bytes.len(),
{
    if bytes.len() > 0 {
        lemma_room(bytes.drop_last());
        let before = under_way(bytes.drop_last());
        let part = last_part(bytes);
        assert(forall|i: int| 0 <= i < before.len() ==> part[i] == before[i]);
    }
}

/// What is remembered of a frame under way: how many bytes of it have come, up to
/// nineteen, its tag, and the width and height that it has where it is a
/// rectangle.
pub struct Glimpse {
    count: usize,
    tag: u8,
    size: [u8; 4],
}

impl Glimpse {
    /// This is remembered of the part of a frame.
    pub closed spec fn is_of(self, part: Seq<u8>) -> bool {
        &&& self.count == if part.len() < 19 {
            part.len() as int
        } else {
            19
        }
        &&& part.len() >= 3 ==> self.tag == part[2]
        &&& forall|i: int| 0 <= i < 4 && part.len() > 15 + i ==> #[trigger] self.size@[i] == part[15
            + i]
    }

    /// Nothing of a frame has come.
    pub(crate) fn new() -> (glimpse: Self)
        ensures
            glimpse.is_of(Seq::empty()),
    {
        Glimpse { count: 0, tag: 0, size: [0u8; 4] }
    }

    /// Takes note of a byte and of the decoder's answer to it.
    pub(crate) fn note(&mut self, byte: u8, complete: Result<bool, ()>, Ghost(before): Ghost<Seq<u8>>)
        requires
            old(self).is_of(under_way(before)),
            complete == pushed(before.push(byte)),
        ensures
            final(self).is_of(under_way(before.push(byte))),
    {
        let ghost after = before.push(byte);
        assert(after.drop_last() =~= before);
        assert(after.last() == byte);
        let ghost part = under_way(before).push(byte);
        match complete {
            Ok(false) => {
                if self.count < 2 {
                    self.count = if byte == 0xE6 {
                        1
                    } else if self.count == 1 && byte == 0x71 {
                        2
                    } else {
                        0
                    };
                } else {
                    if self.count == 2 {
                        self.tag = byte;
                    } else if self.count >= 15 && self.count < 19 {
                        self.size[self.count - 15] = byte;
                    }
                    if self.count < 19 {
                        self.count += 1;
                    }
                }
            },
            _ => {
                self.count = 0;
            },
        }
    }

    /// Whether the bytes of the frame can be counted, if it is a rectangle and ends
    /// with the next byte. One that cannot is no message.
    pub(crate) fn fits(&self, Ghost(bytes): Ghost<Seq<u8>>) -> (yes: bool)
        requires
            bytes.len() > 0,
            self.is_of(under_way(bytes.drop_last())),
            pushed(bytes) == Ok::<bool, ()>(true),
        ensures
            yes ==> size_fits(last_tag(bytes), last_body(bytes)),
            !yes ==> parsed(last_tag(bytes), last_body(bytes)) is None,
    {
        let ghost before = under_way(bytes.drop_last());
        let ghost part = last_part(bytes);
        let ghost body = last_body(bytes);
        proof {
            lemma_room(bytes.drop_last());
            assert(forall|i: int| 0 <= i < before.len() ==> part[i] == before[i]);
            assert(part.len() <= 4105);
            if body.len() >= 12 {
                assert(body[8] == part[15] && body[9] == part[16]);
                assert(body[10] == part[17] && body[11] == part[18]);
            }
        }
        if self.count < 19 || self.tag != 0x03 {
            return true;
        }
        let w: u64 = self.size[0] as u64 + 256 * self.size[1] as u64;
        let h: u64 = self.size[2] as u64 + 256 * self.size[3] as u64;
        assert(w * h <= 65535 * 65535) by (nonlinear_arith)
            requires
                w <= 65535,
                h <= 65535,
        ;
        assert(self.size@[0] == before[15] && self.size@[1] == before[16]);
        assert(self.size@[2] == before[17] && self.size@[3] == before[18]);
        w * h * 2 <= 0xFFFF_FFFF
    }
}

/// After a message or a fault the decoder looks for the start of a frame, and goes
/// on doing so until the two fixed bytes come: any byte but the second of them may
/// follow, and that one too unless the first came just before.
pub proof fn law_hunting_goes_on(bytes: Seq<u8>, byte: u8)
    ensures
        hunting(Seq::empty()),
        pushed(bytes.push(byte)) != Ok::<bool, ()>(false) ==> hunting(bytes.push(byte)),
        hunting(bytes) && !(byte == 0x71 && under_way(bytes).len() == 1) ==> hunting(
            bytes.push(byte),
        ),
        hunting(bytes) && byte == 0xE6 ==> under_way(bytes.push(byte)) == seq![0xE6u8],
{
    assert(bytes.push(byte).drop_last() =~= bytes);
}

/// How a frame is taken: wherever the decoder looks for one, no byte of the frame
/// before its last completes anything.
proof fn lemma_frame_steps(before: Seq<u8>, tag: u8, body: Seq<u8>, sum: u16, n: int)
    requires
        hunting(before),
        body.len() <= 4096,
        0 < n < frame_with(tag, body, sum).len(),
    ensures
        under_way(before + frame_with(tag, body, sum).take(n)) == frame_with(tag, body, sum).take(
            n,
        ),
        pushed(before + frame_with(tag, body, sum).take(n)) == Ok::<bool, ()>(false),
    decreases n,
{
    let whole = frame_with(tag, body, sum);
    lemma_frame_layout(tag, body, sum);
    let bytes = before + whole.take(n);
    let part = last_part(bytes);
    assert(bytes.last() == whole[n - 1]);
    if n == 1 {
        assert(bytes.drop_last() =~= before);
        if under_way(before).len() == 1 {
            lemma_single(before);
        }
        assert(whole.take(1) =~= seq![0xE6u8]);
    } else {
        lemma_frame_steps(before, tag, body, sum, n - 1);
        assert(bytes.drop_last() =~= before + whole.take(n - 1));
        assert(part =~= whole.take(n));
        if n >= 7 {
            assert(long(part, 3) == long(whole, 3));
        }
    }
}

/// One byte under way is the first of a frame.
proof fn lemma_single(bytes: Seq<u8>)
    requires
        under_way(bytes).len() == 1,
    ensures
        under_way(bytes) == seq![0xE6u8],
{
}

/// Where the parts of a frame lie.
proof fn lemma_frame_layout(tag: u8, body: Seq<u8>, sum: u16)
    requires
        body.len() <= 4096,
    ensures
        ({
            let whole = frame_with(tag, body, sum);
            &&& whole.len() == 9 + body.len()
            &&& whole[0] == 0xE6
            &&& whole[1] == 0x71
            &&& whole[2] == tag
            &&& long(whole, 3) == body.len()
            &&& whole.subrange(2, whole.len() - 2) == checked(tag, body)
            &&& whole.subrange(7, whole.len() - 2) == body
            &&& word(whole, whole.len() - 2) == sum
        }),
{
    let whole = frame_with(tag, body, sum);
    let n = body.len() as u32;
    lemma_long(n);
    lemma_word(sum);
    assert(little_endian(body.len() as int, 4) == little_endian(n as int, 4));
    assert(whole.subrange(3, 7) =~= little_endian(n as int, 4));
    assert(long(whole, 3) == long(whole.subrange(3, 7), 0));
    assert(whole.subrange(2, whole.len() - 2) =~= checked(tag, body));
    assert(whole.subrange(7, whole.len() - 2) =~= body);
    assert(whole.subrange(whole.len() - 2, whole.len() as int) =~= little_endian(sum as int, 2));
    assert(word(whole, whole.len() - 2) == word(little_endian(sum as int, 2), 0));
}

/// A frame is taken wherever the decoder looks for one: its last byte completes a
/// message with the frame's tag and body, and no byte before that completes
/// anything. With a wrong checksum the last byte is a fault.
pub proof fn law_frame_is_taken(before: Seq<u8>, tag: u8, body: Seq<u8>, sum: u16, n: int)
    requires
        hunting(before),
        body.len() <= 4096,
        0 < n < 9 + body.len(),
    ensures
        ({
            let right = before + frame(tag, body);
            let wrong = before + frame_with(tag, body, sum);
            &&& pushed(right) == Ok::<bool, ()>(true)
            &&& last_tag(right) == tag
            &&& last_body(right) == body
            &&& sum != checksum(checked(tag, body)) ==> pushed(wrong) is Err
            &&& pushed(before + frame_with(tag, body, sum).take(n)) == Ok::<bool, ()>(false)
        }),
{
    lemma_frame_layout(tag, body, sum);
    lemma_frame_end(before, tag, body, sum);
    lemma_frame_end(before, tag, body, checksum(checked(tag, body)));
    lemma_frame_steps(before, tag, body, sum, n);
}

proof fn lemma_frame_end(before: Seq<u8>, tag: u8, body: Seq<u8>, sum: u16)
    requires
        hunting(before),
        body.len() <= 4096,
    ensures
        ({
            let bytes = before + frame_with(tag, body, sum);
            &&& last_part(bytes) == frame_with(tag, body, sum)
            &&& last_tag(bytes) == tag
            &&& last_body(bytes) == body
            &&& pushed(bytes) == if sum == checksum(checked(tag, body)) {
                Ok::<bool, ()>(true)
            } else {
                Err::<bool, ()>(())
            }
        }),
{
    let whole = frame_with(tag, body, sum);
    let bytes = before + whole;
    lemma_frame_layout(tag, body, sum);
    lemma_frame_steps(before, tag, body, sum, whole.len() - 1);
    assert(bytes.drop_last() =~= before + whole.take(whole.len() - 1));
    assert(last_part(bytes) =~= whole);
}

/// A frame whose length the decoder has no room for is a fault at its length.
pub proof fn law_oversized_frame_is_a_fault(before: Seq<u8>, tag: u8, len: u32)
    requires
        hunting(before),
        len > 4096,
    ensures
        pushed(before + (seq![0xE6u8, 0x71u8, tag] + little_endian(len as int, 4))) is Err,
{
    lemma_long(len);
    let part = seq![0xE6u8, 0x71u8, tag] + little_endian(len as int, 4);
    lemma_start_steps(before, part, 6);
    assert((before + part).drop_last() =~= before + part.take(6));
    assert(last_part(before + part) =~= part);
    assert(part.subrange(3, 7) =~= little_endian(len as int, 4));
    assert(long(part, 3) == long(part.subrange(3, 7), 0));
}

proof fn lemma_start_steps(before: Seq<u8>, part: Seq<u8>, n: int)
    requires
        hunting(before),
        0 < n <= 6,
        part.len() >= 6,
        part[0] == 0xE6,
        part[1] == 0x71,
    ensures
        under_way(before + part.take(n)) == part.take(n),
    decreases n,
{
    let bytes = before + part.take(n);
    assert(bytes.last() == part[n - 1]);
    if n == 1 {
        assert(bytes.drop_last() =~= before);
        assert(part.take(1) =~= seq![0xE6u8]);
    } else {
        lemma_start_steps(before, part, n - 1);
        assert(bytes.drop_last() =~= before + part.take(n - 1));
        assert(last_part(bytes) =~= part.take(n));
    }
}

/// The part of a frame that is under way is what the bytes end with.
proof fn lemma_suffix(bytes: Seq<u8>)
    ensures
        ({
            let part = under_way(bytes);
            &&& part.len() <= bytes.len()
            &&& bytes.skip(bytes.len() - part.len()) == part
            &&& part.len() >= 1 ==> part[0] == 0xE6
            &&& part.len() >= 2 ==> part[1] == 0x71
        }),
    decreases bytes.len(),
{
    let part = under_way(bytes);
    if bytes.len() > 0 {
        let front = bytes.drop_last();
        lemma_suffix(front);
        let before = under_way(front);
        assert forall|i: int| 0 <= i < before.len() implies before[i] == front[front.len()
            - before.len() + i] by {
            assert(front.skip(front.len() - before.len())[i] == before[i]);
        }
    }
    assert(bytes.skip(bytes.len() - part.len()) =~= part);
}

/// Four bytes are those of the number they stand for.
proof fn lemma_long_back(bytes: Seq<u8>)
    requires
        bytes.len() == 4,
    ensures
        little_endian(long(bytes, 0), 4) == bytes,
{
    reveal_with_fuel(little_endian, 5);
    assert(little_endian(long(bytes, 0), 4) =~= bytes);
}

/// Two bytes are those of the number they stand for.
proof fn lemma_word_back(bytes: Seq<u8>)
    requires
        bytes.len() == 2,
    ensures
        little_endian(word(bytes, 0) as int, 2) == bytes,
{
    reveal_with_fuel(little_endian, 3);
    assert(little_endian(word(bytes, 0) as int, 2) =~= bytes);
}

/// A message comes only where the bytes end with a whole frame with the right
/// checksum.
pub proof fn law_message_is_a_frame(bytes: Seq<u8>)
    requires
        bytes.len() > 0,
        pushed(bytes) == Ok::<bool, ()>(true),
    ensures
        last_body(bytes).len() <= 4096,
        last_part(bytes) == frame(last_tag(bytes), last_body(bytes)),
        last_part(bytes).len() <= bytes.len(),
        bytes.skip(bytes.len() - last_part(bytes).len()) == last_part(bytes),
{
    let part = last_part(bytes);
    let front = bytes.drop_last();
    let before = under_way(front);
    let n = part.len() as int;
    lemma_room(front);
    lemma_suffix(front);
    assert forall|i: int| 0 <= i < n implies #[trigger] part[i] == bytes[bytes.len() - n + i] by {
        if i < n - 1 {
            assert(front.skip(front.len() - before.len())[i] == before[i]);
        }
    }
    assert(bytes.skip(bytes.len() - n) =~= part);
    let tag = last_tag(bytes);
    let body = last_body(bytes);
    let count = part.subrange(3, 7);
    let sum = part.subrange(n - 2, n);
    assert(forall|i: int| 0 <= i < before.len() ==> part[i] == before[i]);
    assert(long(part, 3) == long(count, 0));
    assert(word(part, n - 2) == word(sum, 0));
    lemma_long_back(count);
    lemma_word_back(sum);
    assert(little_endian(body.len() as int, 4) == count);
    assert(part.subrange(2, n - 2) =~= checked(tag, body));
    assert(part =~= frame(tag, body));
}

/// A body of the wrong length is no message: an announcement has six bytes, a request
/// for a sign of life none, and a rectangle twelve and two for each of its pixels.
/// Only these three are more than a message that is not answered.
pub proof fn law_messages_have_their_length(tag: u8, body: Seq<u8>)
    ensures
        parsed(tag, body) == Some(RequestView::Hello) <==> tag == 1 && body.len() == 6,
        parsed(tag, body) == Some(RequestView::Ping) <==> tag == 5 && body.len() == 0,
        parsed(tag, body) matches Some(RequestView::FrameRect { x, y, w, h, pixels }) ==> tag == 3
            && body.len() == 12 + pixels.len() && pixels.len() == w * h * 2,
        tag == 3 && body.len() < 12 ==> parsed(tag, body) is None,
        parsed(tag, body) is Some ==> 1 <= tag <= 5 || 0x81 <= tag <= 0x85,
{
}

} // verus!
