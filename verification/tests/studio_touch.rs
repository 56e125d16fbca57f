use stm32wba_tftdisplay::studio::touch::{map_touch, poll_touch, TouchReading, TouchReport};

fn contact(raw_x: u16, raw_y: u16) -> TouchReading {
    TouchReading::Contact { raw_x, raw_y }
}

#[test]
fn samples_are_turned_into_the_panel() {
    assert_eq!(map_touch(0, 0), (0, 239));
    assert_eq!(map_touch(239, 0), (0, 0));
    assert_eq!(map_touch(0, 319), (319, 239));
    assert_eq!(map_touch(100, 200), (200, 139));
}

#[test]
fn samples_beyond_an_edge_land_on_it() {
    assert_eq!(map_touch(240, 320), (319, 0));
    assert_eq!(map_touch(u16::MAX, u16::MAX), (319, 0));
}

#[test]
fn press_move_and_release_are_reported() {
    let mut last = None;
    assert_eq!(
        poll_touch(&mut last, contact(100, 50)),
        Some(TouchReport { x: 50, y: 139, pressed: true })
    );
    assert_eq!(last, Some((50, 139)));
    // Two pixels are no move, three are.
    assert_eq!(poll_touch(&mut last, contact(102, 52)), None);
    assert_eq!(last, Some((50, 139)));
    assert_eq!(
        poll_touch(&mut last, contact(100, 53)),
        Some(TouchReport { x: 53, y: 139, pressed: true })
    );
    assert_eq!(
        poll_touch(&mut last, TouchReading::LineHigh),
        Some(TouchReport { x: 53, y: 139, pressed: false })
    );
    assert_eq!(last, None);
    assert_eq!(poll_touch(&mut last, TouchReading::LineHigh), None);
}

#[test]
fn lost_contact_is_a_release() {
    let mut last = Some((7, 8));
    assert_eq!(
        poll_touch(&mut last, TouchReading::NoContact),
        Some(TouchReport { x: 7, y: 8, pressed: false })
    );
    assert_eq!(poll_touch(&mut last, TouchReading::NoContact), None);
}

#[test]
fn releases_follow_their_presses() {
    let readings = [
        TouchReading::LineHigh,
        contact(10, 10),
        contact(10, 10),
        contact(20, 10),
        TouchReading::NoContact,
        TouchReading::LineHigh,
        contact(5, 5),
        TouchReading::LineHigh,
    ];
    let mut last = None;
    let reports: Vec<TouchReport> =
        readings.iter().filter_map(|r| poll_touch(&mut last, *r)).collect();
    let pressed: Vec<bool> = reports.iter().map(|r| r.pressed).collect();
    assert_eq!(pressed, vec![true, true, false, true, false]);
    assert_eq!((reports[2].x, reports[2].y), (reports[1].x, reports[1].y));
    assert_eq!((reports[4].x, reports[4].y), (reports[3].x, reports[3].y));
}
