use embedded_gui_live::{crc16, Msg};
use stm32wba_tftdisplay::studio::agent::{handle, rect_job, reply_frame, Action, Agent};
use stm32wba_tftdisplay::studio::link::{Reply, Request};
use stm32wba_tftdisplay::studio::touch::TouchReading;

fn frame_of(msg: Msg) -> Vec<u8> {
    let mut out = vec![0u8; msg.encoded_len()];
    let n = msg.encode(&mut out).unwrap();
    out.truncate(n);
    out
}

fn wire(tag: u8, body: &[u8]) -> Vec<u8> {
    let mut covered = vec![tag];
    covered.extend_from_slice(&(body.len() as u32).to_le_bytes());
    covered.extend_from_slice(body);
    let mut frame = vec![0xE6, 0x71];
    frame.extend_from_slice(&covered);
    frame.extend_from_slice(&crc16(&covered).to_le_bytes());
    frame
}

fn feed(agent: &mut Agent, bytes: &[u8]) -> Vec<Action> {
    bytes.iter().filter_map(|b| agent.on_byte(*b)).collect()
}

#[test]
fn hello_is_answered_with_ready() {
    let mut agent = Agent::new();
    let bytes = frame_of(Msg::Hello { proto: 1, fb_w: 320, fb_h: 240 });
    let actions = feed(&mut agent, &bytes);
    assert_eq!(actions.len(), 1);
    match &actions[0] {
        Action::Send(sent) => {
            let body = [1, 0, 0x40, 1, 0xF0, 0, 0xF4, 0x0F, 0, 0];
            assert_eq!(*sent, wire(0x81, &body));
            let ready = Msg::Ready { proto: 1, fb_w: 320, fb_h: 240, max_rect_bytes: 4084 };
            assert_eq!(*sent, frame_of(ready));
        }
        Action::Paint(_) => panic!("nothing to paint"),
    }
}

#[test]
fn ping_is_answered_with_pong() {
    let mut agent = Agent::new();
    let actions = feed(&mut agent, &frame_of(Msg::Ping));
    assert_eq!(actions.len(), 1);
    assert!(matches!(&actions[0], Action::Send(sent) if *sent == wire(0x85, &[])));
}

#[test]
fn tile_is_painted_high_byte_first() {
    let mut agent = Agent::new();
    let pixels: Vec<u8> = (0..3200).map(|i| (i % 251) as u8).collect();
    let tile = Msg::FrameRect { seq: 9, x: 40, y: 80, w: 40, h: 40, pixels: &pixels };
    let actions = feed(&mut agent, &frame_of(tile));
    assert_eq!(actions.len(), 1);
    match &actions[0] {
        Action::Paint(job) => {
            assert_eq!((job.x, job.y, job.w, job.h, job.len), (40, 80, 40, 40, 3200));
            for (le, be) in pixels.chunks(2).zip(job.pixels_be.chunks(2)) {
                assert_eq!([le[1], le[0]], [be[0], be[1]]);
            }
        }
        Action::Send(_) => panic!("nothing to send"),
    }
}

#[test]
fn rectangle_beyond_a_job_is_dropped() {
    let mut agent = Agent::new();
    let pixels = vec![0u8; 3202];
    let wide = Msg::FrameRect { seq: 0, x: 0, y: 0, w: 1601, h: 1, pixels: &pixels };
    assert!(feed(&mut agent, &frame_of(wide)).is_empty());
    assert!(rect_job(0, 0, 1601, 1, &pixels).is_none());
}

#[test]
fn other_messages_are_not_answered() {
    let mut agent = Agent::new();
    assert!(feed(&mut agent, &frame_of(Msg::FrameBegin { seq: 1, full: true })).is_empty());
    assert!(feed(&mut agent, &frame_of(Msg::FrameEnd { seq: 1 })).is_empty());
    assert!(feed(&mut agent, &frame_of(Msg::Pong)).is_empty());
    assert!(feed(&mut agent, &wire(0x77, &[])).is_empty());
    assert!(feed(&mut agent, &wire(0x05, &[1])).is_empty());
    assert_eq!(feed(&mut agent, &frame_of(Msg::Ping)).len(), 1);
}

#[test]
fn faults_are_not_answered_and_the_stream_goes_on() {
    let mut agent = Agent::new();
    let mut broken = frame_of(Msg::Ping);
    let last = broken.len() - 1;
    broken[last] ^= 1;
    assert!(feed(&mut agent, &broken).is_empty());
    assert_eq!(feed(&mut agent, &frame_of(Msg::Ping)).len(), 1);
    // A length that the decoder has no room for.
    assert!(feed(&mut agent, &[0xE6, 0x71, 0x03, 0x01, 0x10, 0, 0]).is_empty());
    assert_eq!(feed(&mut agent, &frame_of(Msg::Ping)).len(), 1);
    // Noise between two frames.
    assert!(feed(&mut agent, &[1, 2, 3, 0x71]).is_empty());
    assert_eq!(feed(&mut agent, &frame_of(Msg::Ping)).len(), 1);
}

#[test]
fn only_the_last_byte_of_a_frame_is_answered() {
    let mut agent = Agent::new();
    let bytes = frame_of(Msg::Ping);
    for b in &bytes[..bytes.len() - 1] {
        assert!(agent.on_byte(*b).is_none());
    }
    assert!(agent.on_byte(bytes[bytes.len() - 1]).is_some());
}

#[test]
fn requests_are_handled() {
    assert!(handle(Request::Other).is_none());
    assert!(matches!(handle(Request::Ping), Some(Action::Send(_))));
    assert!(matches!(handle(Request::Hello), Some(Action::Send(_))));
    let rect = Request::FrameRect { x: 1, y: 2, w: 1, h: 1, pixels: vec![0x34, 0x12] };
    match handle(rect) {
        Some(Action::Paint(job)) => {
            assert_eq!(job.pixels_be[..4], [0x12, 0x34, 0, 0]);
            assert_eq!(job.len, 2);
        }
        _ => panic!("a rectangle is painted"),
    }
}

#[test]
fn swapping_twice_gives_the_pixels_back() {
    let pixels: Vec<u8> = (0..64).collect();
    let once = rect_job(0, 0, 8, 4, &pixels).unwrap();
    let twice = rect_job(0, 0, 8, 4, &once.pixels_be[..64]).unwrap();
    assert_eq!(twice.pixels_be[..64], pixels[..]);
    // The odd byte of an odd number is left out.
    let odd = rect_job(0, 0, 1, 1, &[1, 2, 3]).unwrap();
    assert_eq!(odd.pixels_be[..4], [2, 1, 0, 0]);
}

#[test]
fn touches_are_sent_to_the_host() {
    let mut agent = Agent::new();
    let pressed = agent.on_touch(TouchReading::Contact { raw_x: 10, raw_y: 300 }).unwrap();
    assert_eq!(pressed, frame_of(Msg::Touch { x: 300, y: 229, pressed: true }));
    assert_eq!(pressed, wire(0x84, &[0x2C, 1, 229, 0, 1]));
    assert!(agent.on_touch(TouchReading::Contact { raw_x: 10, raw_y: 300 }).is_none());
    let released = agent.on_touch(TouchReading::LineHigh).unwrap();
    assert_eq!(released, frame_of(Msg::Touch { x: 300, y: 229, pressed: false }));
}

#[test]
fn new_host_starts_without_a_contact() {
    let mut agent = Agent::new();
    assert!(agent.on_touch(TouchReading::Contact { raw_x: 10, raw_y: 10 }).is_some());
    agent.connect();
    assert!(agent.on_touch(TouchReading::LineHigh).is_none());
    assert!(agent.on_touch(TouchReading::Contact { raw_x: 10, raw_y: 10 }).is_some());
}

#[test]
fn reply_frames_carry_their_message() {
    let touch = reply_frame(Reply::Touch { x: 1, y: 2, pressed: false });
    assert_eq!(touch, frame_of(Msg::Touch { x: 1, y: 2, pressed: false }));
    assert_eq!(reply_frame(Reply::Pong), frame_of(Msg::Pong));
}

#[test]
fn replies_are_told_apart() {
    let replies = [
        Reply::Pong,
        Reply::Touch { x: 1, y: 2, pressed: true },
        Reply::Touch { x: 1, y: 2, pressed: false },
        Reply::Touch { x: 2, y: 1, pressed: true },
        Reply::Touch { x: 257, y: 2, pressed: true },
        Reply::Ready { proto: 1, fb_w: 320, fb_h: 240, max_rect_bytes: 4084 },
        Reply::Ready { proto: 1, fb_w: 320, fb_h: 240, max_rect_bytes: 65540 },
    ];
    for (i, a) in replies.iter().enumerate() {
        for (k, b) in replies.iter().enumerate() {
            assert_eq!(reply_frame(*a) == reply_frame(*b), i == k);
        }
    }
}

#[test]
fn rectangle_whose_size_overflows_is_dropped() {
    let mut agent = Agent::new();
    // 65281 * 32896 * 2 is 256 more than 32 bits can hold.
    let mut body = vec![0u8; 12 + 256];
    body[8..10].copy_from_slice(&65281u16.to_le_bytes());
    body[10..12].copy_from_slice(&32896u16.to_le_bytes());
    assert!(feed(&mut agent, &wire(0x03, &body)).is_empty());
    assert_eq!(feed(&mut agent, &frame_of(Msg::Ping)).len(), 1);
    // A body that ends before its height, with a size as large.
    assert!(feed(&mut agent, &wire(0x03, &[0xFF; 11])).is_empty());
    assert!(feed(&mut agent, &wire(0x03, &[0xFF; 12])).is_empty());
    assert_eq!(feed(&mut agent, &frame_of(Msg::Ping)).len(), 1);
}

#[test]
fn frames_are_found_after_stray_first_bytes() {
    let mut agent = Agent::new();
    for noise in [&[0xE6u8][..], &[0xE6, 0xE6, 0xE6], &[0xE6, 5], &[0xE6, 0xE6, 9, 0x71], &[7]] {
        assert!(feed(&mut agent, noise).is_empty());
        assert_eq!(feed(&mut agent, &frame_of(Msg::Ping)).len(), 1);
    }
    // The two fixed bytes start a frame, which then swallows what follows.
    assert!(feed(&mut agent, &[0xE6, 0x71]).is_empty());
    assert!(feed(&mut agent, &frame_of(Msg::Ping)).is_empty());
}

#[test]
fn replies_end_with_their_checksum() {
    // CRC-16/CCITT-FALSE of the bytes 85 00 00 00 00.
    let mut sum: u16 = 0xFFFF;
    for b in [0x85u8, 0, 0, 0, 0] {
        sum ^= (b as u16) << 8;
        for _ in 0..8 {
            sum = if sum & 0x8000 != 0 { (sum << 1) ^ 0x1021 } else { sum << 1 };
        }
    }
    let [low, high] = sum.to_le_bytes();
    assert_eq!(reply_frame(Reply::Pong), vec![0xE6, 0x71, 0x85, 0, 0, 0, 0, low, high]);
}
