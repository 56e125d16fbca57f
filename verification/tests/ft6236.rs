use stm32wba_tftdisplay::doom::controls::TouchSample;
use stm32wba_tftdisplay::ft6236::{point0, EventType, TouchPoint};
use stm32wba_tftdisplay::studio::touch::TouchReading;

#[test]
fn registers_hold_a_point() {
    assert_eq!(
        point0(&[1, 0x80, 0xEF, 0x01, 0x3F]),
        Some(TouchPoint { event: EventType::Contact, x: 0xEF, y: 0x13F })
    );
    assert_eq!(
        point0(&[0xF2, 0x4A, 0x01, 0xFF, 0xFF]),
        Some(TouchPoint { event: EventType::LiftUp, x: 0xA01, y: 0xFFF })
    );
    assert_eq!(point0(&[1, 0x00, 0, 0, 0]).unwrap().event, EventType::PressDown);
    assert_eq!(point0(&[1, 0xC0, 0, 0, 0]).unwrap().event, EventType::NoEvent);
}

#[test]
fn registers_without_a_point() {
    assert_eq!(point0(&[0, 0x80, 1, 0, 1]), None);
    assert_eq!(point0(&[0xFF, 0xFF, 0xFF, 0xFF, 0xFF]), None);
}

#[test]
fn points_are_sampled() {
    let at = |event: EventType| Some(TouchPoint { event, x: 3, y: 4 });
    for event in [EventType::PressDown, EventType::Contact, EventType::NoEvent] {
        assert_eq!(TouchSample::from_point(at(event)), TouchSample::Contact { x: 3, y: 4 });
        assert_eq!(
            TouchReading::from_point(at(event)),
            TouchReading::Contact { raw_x: 3, raw_y: 4 }
        );
    }
    assert_eq!(TouchSample::from_point(at(EventType::LiftUp)), TouchSample::LiftUp);
    assert_eq!(TouchReading::from_point(at(EventType::LiftUp)), TouchReading::NoContact);
    assert_eq!(TouchSample::from_point(None), TouchSample::Nothing);
    assert_eq!(TouchReading::from_point(None), TouchReading::NoContact);
}
