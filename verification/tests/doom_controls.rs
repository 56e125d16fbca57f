use stm32wba_tftdisplay::doom::ahrs::AhrsSwitch;
use stm32wba_tftdisplay::doom::controls::{Controls, TouchHold, TouchSample};

const NONE: Controls = Controls {
    turn_right: false,
    turn_left: false,
    forward: false,
    backward: false,
    shoot: false,
};

fn touched(x: u16, y: u16) -> Controls {
    let mut hold = TouchHold::new();
    hold.take_sample(TouchSample::Contact { x, y });
    hold.controls(false, false, false)
}

#[test]
fn zones_of_the_screen() {
    assert_eq!(touched(0, 0), Controls { turn_left: true, ..NONE });
    assert_eq!(touched(79, 319), Controls { turn_left: true, ..NONE });
    assert_eq!(touched(161, 0), Controls { turn_right: true, ..NONE });
    assert_eq!(touched(239, 319), Controls { turn_right: true, ..NONE });
    assert_eq!(touched(80, 0), Controls { backward: true, ..NONE });
    assert_eq!(touched(120, 105), Controls { backward: true, ..NONE });
    assert_eq!(touched(120, 106), Controls { shoot: true, ..NONE });
    assert_eq!(touched(120, 212), Controls { shoot: true, ..NONE });
    assert_eq!(touched(160, 213), Controls { forward: true, ..NONE });
    assert_eq!(touched(160, 319), Controls { forward: true, ..NONE });
    assert_eq!(touched(240, 0), NONE);
    assert_eq!(touched(0, 320), NONE);
}

#[test]
fn contact_holds_for_four_frames() {
    let mut hold = TouchHold::new();
    assert!(!hold.wants_sample(false));
    assert!(hold.wants_sample(true));
    hold.take_sample(TouchSample::Contact { x: 10, y: 10 });
    for _ in 0..3 {
        hold.take_sample(TouchSample::Nothing);
        assert!(hold.wants_sample(false));
        assert!(hold.controls(false, false, false).turn_left);
    }
    hold.take_sample(TouchSample::Nothing);
    assert!(!hold.wants_sample(false));
    assert_eq!(hold.controls(false, false, false), NONE);
    hold.take_sample(TouchSample::Nothing);
    assert_eq!(hold.counter, 0);
}

#[test]
fn lifted_finger_ends_at_once() {
    let mut hold = TouchHold::new();
    hold.take_sample(TouchSample::Contact { x: 10, y: 10 });
    hold.take_sample(TouchSample::LiftUp);
    assert_eq!(hold.controls(false, false, false), NONE);
}

#[test]
fn buttons_and_contact_act_together() {
    let hold = TouchHold::new();
    assert_eq!(hold.controls(true, false, false), Controls { turn_right: true, ..NONE });
    assert_eq!(hold.controls(false, true, false), Controls { forward: true, ..NONE });
    assert_eq!(hold.controls(false, false, true), Controls { turn_left: true, ..NONE });
    let mut shooting = TouchHold::new();
    shooting.take_sample(TouchSample::Contact { x: 120, y: 150 });
    let both = shooting.controls(false, true, false);
    assert_eq!(both, Controls { forward: true, shoot: true, ..NONE });
    assert!(both.is_any());
    assert!(!NONE.is_any());
}

fn press(switch: &mut AhrsSwitch, up: u32) {
    switch.step(true);
    for _ in 0..up {
        switch.step(false);
    }
}

#[test]
fn three_quick_presses_turn_the_attitude_controls_over() {
    let mut switch = AhrsSwitch::new();
    press(&mut switch, 10);
    press(&mut switch, 10);
    assert!(!switch.on);
    press(&mut switch, 10);
    assert!(switch.on);
    press(&mut switch, 1);
    press(&mut switch, 1);
    assert!(switch.on);
    press(&mut switch, 1);
    assert!(!switch.on);
}

#[test]
fn presses_must_fall_within_75_frames() {
    let mut at_limit = AhrsSwitch::new();
    press(&mut at_limit, 36);
    press(&mut at_limit, 37);
    at_limit.step(true);
    assert!(at_limit.on);
    let mut late = AhrsSwitch::new();
    press(&mut late, 37);
    press(&mut late, 37);
    late.step(true);
    assert!(!late.on);
    // The two last presses still count towards the next.
    late.step(false);
    late.step(true);
    assert!(late.on);
}

#[test]
fn held_button_is_one_press() {
    let mut switch = AhrsSwitch::new();
    for _ in 0..20 {
        switch.step(true);
    }
    assert!(!switch.on);
    switch.step(false);
    switch.step(true);
    switch.step(false);
    assert!(!switch.on);
    switch.step(true);
    assert!(switch.on);
}
