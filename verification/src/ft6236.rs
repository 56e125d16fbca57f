//! The registers of the FT6236 touch controller.

use vstd::prelude::*;

verus! {

/// What a touch point does.
#[derive(Clone, Copy, Debug, PartialEq, Eq, Structural)]
pub enum EventType {
    PressDown,
    LiftUp,
    Contact,
    NoEvent,
}

/// A touch point in the controller's own frame.
#[derive(Clone, Copy, Debug, PartialEq, Eq, Structural)]
pub struct TouchPoint {
    pub event: EventType,
    pub x: u16,
    pub y: u16,
}

/// The event in the upper two bits of a point's first register.
pub open spec fn event_of(register: u8) -> EventType {
    let code = register as int / 64;
    if code == 0 {
        EventType::PressDown
    } else if code == 1 {
        EventType::LiftUp
    } else if code == 2 {
        EventType::Contact
    } else {
        EventType::NoEvent
    }
}

/// The first touch point in the five registers from the number of points on.
pub open spec fn point_of(registers: Seq<u8>) -> Option<TouchPoint> {
    if 1 <= registers[0] as int % 16 <= 2 {
        Some(
            TouchPoint {
                event: event_of(registers[1]),
                x: (registers[1] as int % 16 * 256 + registers[2]) as u16,
                y: (registers[3] as int % 16 * 256 + registers[4]) as u16,
            },
        )
    } else {
        None
    }
}

/// The first touch point in the five registers from the number of points on, `None`
/// where the controller sees no point, or more than the two that it can tell
/// apart. A coordinate has twelve bits: four in one register, eight in the next.
pub fn point0(registers: &[u8; 5]) -> (point: Option<TouchPoint>)
    ensures
        point == if 1 <= registers@[0] as int % 16 <= 2 {
            Some(
                TouchPoint {
                    event: event_of(registers@[1]),
                    x: (registers@[1] as int % 16 * 256 + registers@[2]) as u16,
                    y: (registers@[3] as int % 16 * 256 + registers@[4]) as u16,
                },
            )
        } else {
            None
        },
        point == point_of(registers@),
{
    let points: u8 = registers[0] % 16;
    if points < 1 || points > 2 {
        return None;
    }
    let event = match registers[1] / 64 {
        0 => EventType::PressDown,
        1 => EventType::LiftUp,
        2 => EventType::Contact,
        _ => EventType::NoEvent,
    };
    let x: u16 = (registers[1] % 16) as u16 * 256 + registers[2] as u16;
    let y: u16 = (registers[3] % 16) as u16 * 256 + registers[4] as u16;
    Some(TouchPoint { event, x, y })
}

/// The lower six bits of a point's first register do not change its event, and the
/// upper two name the four events in their order.
pub proof fn law_event_is_in_upper_bits(register: u8)
    ensures
        event_of(register) is PressDown <==> register < 0x40,
        event_of(register) is LiftUp <==> 0x40 <= register < 0x80,
        event_of(register) is Contact <==> 0x80 <= register < 0xC0,
        event_of(register) is NoEvent <==> 0xC0 <= register,
{
}

/// How registers hold a point: a column and a row of twelve bits, the upper four of
/// each in the lower half of a register whose upper half belongs to something else.
/// There is a point exactly where one or two are counted.
pub proof fn law_registers_hold_point(count: u8, event: u8, x: u16, other: u8, y: u16, spare: u8)
    requires
        count < 16,
        event < 16,
        other < 16,
        spare < 16,
        x < 4096,
        y < 4096,
    ensures
        ({
            let registers = seq![
                (spare * 16 + count) as u8,
                (event * 16 + x / 256) as u8,
                (x % 256) as u8,
                (other * 16 + y / 256) as u8,
                (y % 256) as u8,
            ];
            let point = point_of(registers);
            &&& point is Some <==> count == 1 || count == 2
            &&& point matches Some(p) ==> {
                &&& p.x == x
                &&& p.y == y
                &&& p.event is PressDown <==> event < 4
                &&& p.event is LiftUp <==> 4 <= event < 8
                &&& p.event is Contact <==> 8 <= event < 12
                &&& p.event is NoEvent <==> 12 <= event
            }
        }),
{
}

} // verus!
