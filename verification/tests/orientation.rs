use embedded_3dgfx::hud::FramebufDrawTarget;
use embedded_graphics::mono_font::ascii::FONT_6X10;
use embedded_graphics::mono_font::MonoTextStyle;
use embedded_graphics::pixelcolor::{IntoStorage, Rgb565};
use embedded_graphics::prelude::{Drawable, Point, RgbColor};
use embedded_graphics::text::{Baseline, Text};
use stm32wba_tftdisplay::mesh::dirty_rect::VIEW_PIXELS;
use stm32wba_tftdisplay::orientation::{
    attitude_line, draw_hud, imu_step, is_logged, Backend, Buttons, Calibration, CalibrationStep,
    CraftMode, FilterState, ImuStep, HOLD_FRAMES, MIN_CALIBRATION_SAMPLES,
};

#[test]
fn first_button_steps_through_the_modes() {
    let mut buttons = Buttons::new();
    assert_eq!(buttons.mode, CraftMode::Gouraud);
    let modes =
        [CraftMode::BlinnPhong, CraftMode::Solid, CraftMode::Lines, CraftMode::Gouraud];
    for mode in modes {
        assert_eq!(buttons.poll(true, false, false).mode, Some(mode));
        assert_eq!(buttons.mode, mode);
        assert_eq!(buttons.poll(false, false, false).mode, None);
    }
}

const MADGWICK: FilterState =
    FilterState { backend: Backend::Madgwick, calibrated: false, resting: false };

#[test]
fn held_buttons_act_when_pressed_and_after_a_second() {
    let mut buttons = Buttons::new();
    assert_eq!(buttons.backend, Backend::Vqf);
    for frame in 0..200u32 {
        let asked = buttons.poll(true, true, true);
        assert_eq!(asked.mode.is_some(), frame == 0);
        assert_eq!(asked.calibrate, frame == 0);
        assert_eq!(asked.reset, frame == 0);
        assert_eq!(asked.calibrate_magnetometer, frame == HOLD_FRAMES - 1);
        assert_eq!(asked.backend.is_some(), frame == HOLD_FRAMES - 1);
    }
    assert_eq!(buttons.backend, Backend::Madgwick);
    let released = buttons.poll(false, false, false);
    assert!(released.mode.is_none() && !released.calibrate && !released.reset);
    assert!(!released.calibrate_magnetometer && released.backend.is_none());
    assert!(buttons.poll(false, true, false).calibrate);
    assert!(buttons.poll(false, true, true).reset);
}

#[test]
fn short_presses_are_no_holds() {
    let mut buttons = Buttons::new();
    for _ in 0..3 {
        for _ in 0..HOLD_FRAMES - 1 {
            let asked = buttons.poll(false, true, true);
            assert!(!asked.calibrate_magnetometer && asked.backend.is_none());
        }
        buttons.poll(false, false, false);
    }
    assert_eq!(buttons.backend, Backend::Vqf);
}

#[test]
fn holding_the_third_button_twice_swaps_back() {
    let mut buttons = Buttons::new();
    for expected in [Backend::Madgwick, Backend::Vqf] {
        for _ in 0..HOLD_FRAMES {
            buttons.poll(false, false, true);
        }
        assert_eq!(buttons.backend, expected);
        buttons.poll(false, false, false);
    }
}

#[test]
fn calibration_needs_enough_samples() {
    let mut calibration = Calibration::new();
    calibration.count();
    assert_eq!(calibration.samples, 0);
    assert_eq!(calibration.toggle(), CalibrationStep::Started);
    for _ in 0..MIN_CALIBRATION_SAMPLES {
        calibration.count();
    }
    assert_eq!(calibration.toggle(), CalibrationStep::Dropped);
    assert!(!calibration.active && !calibration.collecting);
    assert_eq!(calibration.toggle(), CalibrationStep::Started);
    assert_eq!(calibration.samples, 0);
    for _ in 0..=MIN_CALIBRATION_SAMPLES {
        calibration.count();
    }
    assert_eq!(calibration.toggle(), CalibrationStep::Applied);
    assert!(calibration.active);
    assert_eq!(calibration.toggle(), CalibrationStep::Started);
    assert_eq!(calibration.toggle(), CalibrationStep::Dropped);
    assert!(calibration.active);
}

#[test]
fn sensor_needs_both_of_its_parts() {
    assert_eq!(imu_step(true, true, true, 7), ImuStep::Update);
    assert_eq!(imu_step(false, true, true, 60), ImuStep::Nothing);
    assert_eq!(imu_step(true, false, true, 120), ImuStep::WarnAccel);
    assert_eq!(imu_step(true, false, false, 120), ImuStep::WarnAccel);
    assert_eq!(imu_step(true, true, false, 120), ImuStep::WarnGyro);
    assert_eq!(imu_step(true, true, false, 121), ImuStep::Nothing);
    assert!(is_logged(0) && is_logged(60) && !is_logged(59));
}

#[test]
fn attitude_is_two_lines() {
    let line = attitude_line(MADGWICK, 5, -45, 180);
    assert_eq!(line.as_str(), "MADGWICK 3D AHRS\nPITCH:   5° ROLL: -45° YAW: 180°");
    let wide = attitude_line(MADGWICK, i32::MIN, i32::MAX, -12345);
    assert_eq!(
        wide.as_str(),
        "MADGWICK 3D AHRS\nPITCH:-2147483648° ROLL:2147483647° YAW:-12345°"
    );
}

#[test]
fn attitude_is_drawn() {
    let mut buffer = [0u16; VIEW_PIXELS];
    draw_hud(&mut buffer, MADGWICK, 1, 2, 3);
    let mut frame = vec![Rgb565::BLACK; VIEW_PIXELS];
    let mut target = FramebufDrawTarget::new(&mut frame, 320, 240);
    let cyan = MonoTextStyle::new(&FONT_6X10, Rgb565::CYAN);
    let yellow = MonoTextStyle::new(&FONT_6X10, Rgb565::YELLOW);
    let lines = "MADGWICK 3D AHRS\nPITCH:   1° ROLL:   2° YAW:   3°";
    let _ = Text::with_baseline(lines, Point::new(8, 8), cyan, Baseline::Top).draw(&mut target);
    let keys = "B1:MODE B2:CALIB B3:RESET";
    let _ = Text::with_baseline(keys, Point::new(8, 222), yellow, Baseline::Top).draw(&mut target);
    assert!(buffer.iter().zip(&frame).all(|(a, b)| *a == b.into_storage()));
    assert!(buffer.iter().any(|p| *p == Rgb565::YELLOW.into_storage()));
}

#[test]
fn title_names_the_filter_and_its_state() {
    let vqf = |calibrated: bool, resting: bool| {
        let state = FilterState { backend: Backend::Vqf, calibrated, resting };
        attitude_line(state, 0, 0, 0).as_str().lines().next().unwrap().to_string()
    };
    assert_eq!(vqf(false, false), "VQF 3D AHRS RAWMAG");
    assert_eq!(vqf(true, false), "VQF 3D AHRS MCAL");
    assert_eq!(vqf(false, true), "VQF 3D AHRS RAWMAG REST");
    assert_eq!(vqf(true, true), "VQF 3D AHRS MCAL REST");
}
