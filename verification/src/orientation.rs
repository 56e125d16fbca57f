//! The orientation demo: its buttons, its sensor and its text.

use vstd::arithmetic::power::pow;
use vstd::prelude::*;
use vstd::string::*;

use crate::array_string::{
    cut, decimal, decimal_value, law_no_leading_zero, law_padding_is_in_front, law_sign_reads_back,
    lemma_cut_append, lemma_decimal_digits, lemma_decimal_short, lemma_short_characters,
    lemma_shown_len, padded, shown, signed_decimal, ArrayString,
};
use crate::color::{cyan, rgb565, yellow};
use crate::mesh::dirty_rect::{VIEW_HEIGHT, VIEW_PIXELS, VIEW_WIDTH};
use crate::mesh::offscreen::row;
use crate::text::{draw_text, text_drawn};

verus! {

/// How the spacecraft is drawn.
#[derive(Clone, Copy, Debug, PartialEq, Eq, Structural)]
pub enum CraftMode {
    Gouraud,
    BlinnPhong,
    Solid,
    Lines,
}

/// The modes in the order in which the first button steps through them.
pub open spec fn craft_modes() -> Seq<CraftMode> {
    seq![CraftMode::Gouraud, CraftMode::BlinnPhong, CraftMode::Solid, CraftMode::Lines]
}

impl CraftMode {
    /// Place in the order of modes.
    pub open spec fn index(self) -> int {
        match self {
            CraftMode::Gouraud => 0,
            CraftMode::BlinnPhong => 1,
            CraftMode::Solid => 2,
            CraftMode::Lines => 3,
        }
    }

    /// The mode after this one. The first comes after the last.
    pub fn next(self) -> (mode: CraftMode)
        ensures
            mode == craft_modes()[(self.index() + 1) % 4],
    {
        match self {
            CraftMode::Gouraud => CraftMode::BlinnPhong,
            CraftMode::BlinnPhong => CraftMode::Solid,
            CraftMode::Solid => CraftMode::Lines,
            CraftMode::Lines => CraftMode::Gouraud,
        }
    }
}

/// Which filter computes the attitude.
#[derive(Clone, Copy, Debug, PartialEq, Eq, Structural)]
pub enum Backend {
    Vqf,
    Madgwick,
}

impl Backend {
    /// The other filter.
    pub open spec fn swapped(self) -> Backend {
        match self {
            Backend::Vqf => Backend::Madgwick,
            Backend::Madgwick => Backend::Vqf,
        }
    }

    /// The other filter.
    pub fn other(self) -> (backend: Backend)
        ensures
            backend == self.swapped(),
    {
        match self {
            Backend::Vqf => Backend::Madgwick,
            Backend::Madgwick => Backend::Vqf,
        }
    }
}

/// What the buttons ask for.
#[derive(Clone, Copy, Debug, PartialEq, Eq, Structural)]
pub struct Requests {
    /// The new mode, where it changes.
    pub mode: Option<CraftMode>,
    /// The present attitude becomes the zero point.
    pub calibrate: bool,
    /// The calibration of the magnetometer starts or stops.
    pub calibrate_magnetometer: bool,
    /// The filter and the zero point are reset.
    pub reset: bool,
    /// The new filter, where it changes.
    pub backend: Option<Backend>,
}

/// Frames for which a button is down until it counts as held, about a second.
pub const HOLD_FRAMES: u32 = 60;

/// The buttons as they were last seen, the mode and the filter. The second and the
/// third button are remembered by the frames for which they have been down.
pub struct Buttons {
    pub mode: CraftMode,
    pub backend: Backend,
    pub b1_was_pressed: bool,
    pub b2_frames: u32,
    pub b3_frames: u32,
}

/// The frames for which a button has been down, one frame later. They are counted
/// until the button counts as held.
pub open spec fn frames_after(frames: u32, down: bool) -> u32 {
    if !down {
        0
    } else if frames < HOLD_FRAMES {
        (frames + 1) as u32
    } else {
        HOLD_FRAMES
    }
}

fn count_frames(frames: u32, down: bool) -> (after: u32)
    ensures
        after == frames_after(frames, down),
{
    if !down {
        0
    } else if frames < HOLD_FRAMES {
        frames + 1
    } else {
        HOLD_FRAMES
    }
}

impl Buttons {
    /// No button pressed, the first mode, the filter that is used by default.
    pub fn new() -> (buttons: Self)
        ensures
            buttons == (Buttons {
                mode: CraftMode::Gouraud,
                backend: Backend::Vqf,
                b1_was_pressed: false,
                b2_frames: 0,
                b3_frames: 0,
            }),
    {
        Buttons {
            mode: CraftMode::Gouraud,
            backend: Backend::Vqf,
            b1_was_pressed: false,
            b2_frames: 0,
            b3_frames: 0,
        }
    }

    /// What is asked for when the three buttons are in this state.
    pub open spec fn asked(self, b1: bool, b2: bool, b3: bool) -> Requests {
        Requests {
            mode: if b1 && !self.b1_was_pressed {
                Some(craft_modes()[(self.mode.index() + 1) % 4])
            } else {
                None
            },
            calibrate: b2 && self.b2_frames == 0,
            calibrate_magnetometer: b2 && self.b2_frames == HOLD_FRAMES - 1,
            reset: b3 && self.b3_frames == 0,
            backend: if b3 && self.b3_frames == HOLD_FRAMES - 1 {
                Some(self.backend.swapped())
            } else {
                None
            },
        }
    }

    /// What is remembered of the three buttons in this state.
    pub open spec fn after(self, b1: bool, b2: bool, b3: bool) -> Buttons {
        Buttons {
            mode: match self.asked(b1, b2, b3).mode {
                Some(mode) => mode,
                None => self.mode,
            },
            backend: match self.asked(b1, b2, b3).backend {
                Some(backend) => backend,
                None => self.backend,
            },
            b1_was_pressed: b1,
            b2_frames: frames_after(self.b2_frames, b2),
            b3_frames: frames_after(self.b3_frames, b3),
        }
    }

    /// Takes the state of the three buttons. A button acts when it goes down, and
    /// the second and the third act once more when they have been held.
    pub fn poll(&mut self, b1: bool, b2: bool, b3: bool) -> (requests: Requests)
        ensures
            *final(self) == old(self).after(b1, b2, b3),
            requests == old(self).asked(b1, b2, b3),
    {
        let mut mode: Option<CraftMode> = None;
        if b1 && !self.b1_was_pressed {
            self.mode = self.mode.next();
            mode = Some(self.mode);
        }
        self.b1_was_pressed = b1;
        let calibrate = b2 && self.b2_frames == 0;
        let calibrate_magnetometer = b2 && self.b2_frames == HOLD_FRAMES - 1;
        self.b2_frames = count_frames(self.b2_frames, b2);
        let reset = b3 && self.b3_frames == 0;
        let mut backend: Option<Backend> = None;
        if b3 && self.b3_frames == HOLD_FRAMES - 1 {
            self.backend = self.backend.other();
            backend = Some(self.backend);
        }
        self.b3_frames = count_frames(self.b3_frames, b3);
        Requests { mode, calibrate, calibrate_magnetometer, reset, backend }
    }
}

/// What is remembered after `n` frames with all three buttons down.
pub open spec fn held_for(buttons: Buttons, n: nat) -> Buttons
    decreases n,
{
    if n == 0 {
        buttons
    } else {
        held_for(buttons, (n - 1) as nat).after(true, true, true)
    }
}

/// Buttons that go down and stay down act in the first frame; the second and the
/// third act once more in the frame in which they have been held, and no button
/// acts in any other frame.
pub proof fn law_held_buttons_act_twice(buttons: Buttons, n: nat)
    requires
        !buttons.b1_was_pressed,
        buttons.b2_frames == 0,
        buttons.b3_frames == 0,
    ensures
        ({
            let asked = held_for(buttons, n).asked(true, true, true);
            &&& asked.mode is Some <==> n == 0
            &&& asked.calibrate <==> n == 0
            &&& asked.reset <==> n == 0
            &&& asked.calibrate_magnetometer <==> n == HOLD_FRAMES - 1
            &&& asked.backend is Some <==> n == HOLD_FRAMES - 1
        }),
        held_for(buttons, n).b1_was_pressed == (n > 0),
        held_for(buttons, n).b2_frames == if n < HOLD_FRAMES {
            n as u32
        } else {
            HOLD_FRAMES
        },
        held_for(buttons, n).b3_frames == held_for(buttons, n).b2_frames,
    decreases n,
{
    if n > 0 {
        law_held_buttons_act_twice(buttons, (n - 1) as nat);
    }
}

/// Buttons that are up ask for nothing, and change neither the mode nor the filter.
pub proof fn law_buttons_that_are_up_are_silent(buttons: Buttons)
    ensures
        buttons.asked(false, false, false) == (Requests {
            mode: None,
            calibrate: false,
            calibrate_magnetometer: false,
            reset: false,
            backend: None,
        }),
        buttons.after(false, false, false).mode == buttons.mode,
        buttons.after(false, false, false).backend == buttons.backend,
{
}

/// Swapping the filter twice leads back to it.
pub proof fn law_filters_swap(backend: Backend)
    ensures
        backend.swapped() != backend,
        backend.swapped().swapped() == backend,
{
}

/// Samples that a calibration of the magnetometer needs more than.
pub const MIN_CALIBRATION_SAMPLES: u32 = 200;

/// What comes of starting or stopping the calibration.
#[derive(Clone, Copy, Debug, PartialEq, Eq, Structural)]
pub enum CalibrationStep {
    /// Samples are collected from now on.
    Started,
    /// The collected samples are enough, and are applied.
    Applied,
    /// The collected samples are too few, and are dropped.
    Dropped,
}

/// The calibration of the magnetometer: whether samples are being collected, how
/// many there are, and whether a calibration is active.
#[derive(Clone, Copy, Debug, PartialEq, Eq, Structural)]
pub struct Calibration {
    pub collecting: bool,
    pub samples: u32,
    pub active: bool,
}

impl Calibration {
    /// What comes of starting or stopping.
    pub open spec fn outcome(self) -> CalibrationStep {
        if !self.collecting {
            CalibrationStep::Started
        } else if self.samples > MIN_CALIBRATION_SAMPLES {
            CalibrationStep::Applied
        } else {
            CalibrationStep::Dropped
        }
    }

    /// After starting or stopping.
    pub open spec fn toggled(self) -> Calibration {
        Calibration {
            collecting: !self.collecting,
            samples: 0,
            active: self.active || self.outcome() == CalibrationStep::Applied,
        }
    }

    /// After a sample.
    pub open spec fn counted(self) -> Calibration {
        Calibration {
            samples: if self.collecting && self.samples < u32::MAX {
                (self.samples + 1) as u32
            } else {
                self.samples
            },
            ..self
        }
    }

    /// Nothing collected, nothing active.
    pub fn new() -> (calibration: Self)
        ensures
            calibration == (Calibration { collecting: false, samples: 0, active: false }),
    {
        Calibration { collecting: false, samples: 0, active: false }
    }

    /// Starts to collect, or stops. What was collected becomes active where there
    /// is enough of it, and the calibration stays as it was otherwise.
    pub fn toggle(&mut self) -> (step: CalibrationStep)
        ensures
            step == if !old(self).collecting {
                CalibrationStep::Started
            } else if old(self).samples > MIN_CALIBRATION_SAMPLES {
                CalibrationStep::Applied
            } else {
                CalibrationStep::Dropped
            },
            *final(self) == (Calibration {
                collecting: !old(self).collecting,
                samples: 0,
                active: old(self).active || step == CalibrationStep::Applied,
            }),
            step == old(self).outcome(),
            *final(self) == old(self).toggled(),
    {
        let step = if !self.collecting {
            CalibrationStep::Started
        } else if self.samples > MIN_CALIBRATION_SAMPLES {
            self.active = true;
            CalibrationStep::Applied
        } else {
            CalibrationStep::Dropped
        };
        self.collecting = !self.collecting;
        self.samples = 0;
        step
    }

    /// Counts a sample, where samples are being collected.
    pub fn count(&mut self)
        ensures
            *final(self) == (Calibration {
                samples: if old(self).collecting && old(self).samples < u32::MAX {
                    (old(self).samples + 1) as u32
                } else {
                    old(self).samples
                },
                ..*old(self)
            }),
            *final(self) == old(self).counted(),
    {
        if self.collecting && self.samples < u32::MAX {
            self.samples += 1;
        }
    }
}

/// Four steps lead back to the mode they started from.
pub proof fn law_modes_cycle(mode: CraftMode)
    ensures
        ({
            let m1 = craft_modes()[(mode.index() + 1) % 4];
            let m2 = craft_modes()[(m1.index() + 1) % 4];
            let m3 = craft_modes()[(m2.index() + 1) % 4];
            craft_modes()[(m3.index() + 1) % 4] == mode
        }),
{
}

/// What is done with a reading of the sensor.
#[derive(Clone, Copy, Debug, PartialEq, Eq, Structural)]
pub enum ImuStep {
    /// The filter takes the reading.
    Update,
    /// The accelerometer failed, and this is logged.
    WarnAccel,
    /// The gyroscope failed, and this is logged.
    WarnGyro,
    /// A failure that is not logged, or no sensor.
    Nothing,
}

/// Frames between two entries in the log.
pub const FRAMES_PER_LOG: u32 = 60;

/// This frame is logged.
pub open spec fn log_due(frame_count: u32) -> bool {
    frame_count % FRAMES_PER_LOG == 0
}

/// What to do once both parts of the sensor were read.
pub open spec fn step_of(imu_ok: bool, accel_ok: bool, gyro_ok: bool, logged: bool) -> ImuStep {
    if imu_ok && accel_ok && gyro_ok {
        ImuStep::Update
    } else if imu_ok && !accel_ok && logged {
        ImuStep::WarnAccel
    } else if imu_ok && accel_ok && !gyro_ok && logged {
        ImuStep::WarnGyro
    } else {
        ImuStep::Nothing
    }
}

/// Whether this frame is logged.
pub fn is_logged(frame_count: u32) -> (yes: bool)
    ensures
        yes == (frame_count % FRAMES_PER_LOG == 0),
        yes == log_due(frame_count),
{
    frame_count % FRAMES_PER_LOG == 0
}

/// What to do once both parts of the sensor were read: the filter needs both, and
/// a failure of the accelerometer is named before one of the gyroscope.
pub fn imu_step(imu_ok: bool, accel_ok: bool, gyro_ok: bool, frame_count: u32) -> (step: ImuStep)
    ensures
        step == if imu_ok && accel_ok && gyro_ok {
            ImuStep::Update
        } else if imu_ok && !accel_ok && frame_count % FRAMES_PER_LOG == 0 {
            ImuStep::WarnAccel
        } else if imu_ok && accel_ok && !gyro_ok && frame_count % FRAMES_PER_LOG == 0 {
            ImuStep::WarnGyro
        } else {
            ImuStep::Nothing
        },
        step == step_of(imu_ok, accel_ok, gyro_ok, log_due(frame_count)),
{
    if !imu_ok {
        return ImuStep::Nothing;
    }
    if accel_ok && gyro_ok {
        ImuStep::Update
    } else if !is_logged(frame_count) {
        ImuStep::Nothing
    } else if !accel_ok {
        ImuStep::WarnAccel
    } else {
        ImuStep::WarnGyro
    }
}

/// What the text says of the filter: its name, and, for the one that also uses the
/// magnetometer, whether a calibration is active, and whether the board rests.
#[derive(Clone, Copy, Debug, PartialEq, Eq, Structural)]
pub struct FilterState {
    pub backend: Backend,
    pub calibrated: bool,
    pub resting: bool,
}

/// The name of the filter and its state.
pub open spec fn title(filter: FilterState) -> Seq<u8> {
    match filter.backend {
        Backend::Madgwick => "MADGWICK 3D AHRS".spec_bytes(),
        Backend::Vqf => "VQF 3D AHRS".spec_bytes() + (if filter.calibrated {
            " MCAL".spec_bytes()
        } else {
            " RAWMAG".spec_bytes()
        }) + (if filter.resting {
            " REST".spec_bytes()
        } else {
            "".spec_bytes()
        }),
    }
}

/// The attitude in degrees, as two lines of text.
pub open spec fn attitude_text(filter: FilterState, pitch: i32, roll: i32, yaw: i32) -> Seq<u8> {
    title(filter) + "\nPITCH:".spec_bytes() + padded(signed_decimal(pitch as int), 4)
        + "° ROLL:".spec_bytes() + padded(signed_decimal(roll as int), 4) + "° YAW:".spec_bytes()
        + padded(signed_decimal(yaw as int), 4) + "°".spec_bytes()
}

/// The attitude in degrees, as two lines of text.
pub fn attitude_line(filter: FilterState, pitch: i32, roll: i32, yaw: i32) -> (line: ArrayString<
    128,
>)
    ensures
        line@ == cut(attitude_text(filter, pitch, roll, yaw), 128),
{
    broadcast use lemma_cut_append;

    let mut line = ArrayString::<128>::new();
    match filter.backend {
        Backend::Madgwick => {
            assert(Seq::<u8>::empty() + "MADGWICK 3D AHRS".spec_bytes()
                =~= "MADGWICK 3D AHRS".spec_bytes());
            line.write_str("MADGWICK 3D AHRS");
        },
        Backend::Vqf => {
            assert(Seq::<u8>::empty() + "VQF 3D AHRS".spec_bytes()
                =~= "VQF 3D AHRS".spec_bytes());
            line.write_str("VQF 3D AHRS");
            line.write_str(
                if filter.calibrated {
                    " MCAL"
                } else {
                    " RAWMAG"
                },
            );
            line.write_str(
                if filter.resting {
                    " REST"
                } else {
                    ""
                },
            );
        },
    }
    assert(line@ == cut(title(filter), 128));
    line.write_str("\nPITCH:");
    line.write_i32_padded(pitch, 4);
    line.write_str("° ROLL:");
    line.write_i32_padded(roll, 4);
    line.write_str("° YAW:");
    line.write_i32_padded(yaw, 4);
    line.write_str("°");
    line
}

/// Draws the attitude at the top and the meaning of the buttons at the bottom. The
/// rows above the text stay, and a pixel that changes takes one of the two
/// colours.
pub fn draw_hud(
    buffer: &mut [u16; VIEW_PIXELS],
    filter: FilterState,
    pitch: i32,
    roll: i32,
    yaw: i32,
)
    ensures
        final(buffer)@ == text_drawn(
            text_drawn(
                old(buffer)@,
                320,
                240,
                shown(cut(attitude_text(filter, pitch, roll, yaw), 128)),
                8,
                8,
                cyan(),
            ),
            320,
            240,
            "B1:MODE B2:CALIB B3:RESET"@,
            8,
            222,
            yellow(),
        ),
        forall|i: int|
            #![trigger final(buffer)@[i]]
            0 <= i < VIEW_PIXELS && final(buffer)@[i] != old(buffer)@[i] ==> {
                &&& row(i) >= 8
                &&& final(buffer)@[i] == cyan() || final(buffer)@[i] == yellow()
            },
{
    let line = attitude_line(filter, pitch, roll, yaw);
    proof {
        lemma_shown_len(line@);
        reveal_strlit("B1:MODE B2:CALIB B3:RESET");
    }
    draw_text(buffer, VIEW_WIDTH, VIEW_HEIGHT, line.as_str(), 8, 8, rgb565(0, 63, 31));
    draw_text(
        buffer,
        VIEW_WIDTH,
        VIEW_HEIGHT,
        "B1:MODE B2:CALIB B3:RESET",
        8,
        222,
        rgb565(31, 63, 0),
    );
}

proof fn lemma_number_short(n: i32)
    ensures
        padded(signed_decimal(n as int), 4).len() <= 11,
{
    assert(pow(10, 10) == 10_000_000_000) by {
        reveal_with_fuel(pow, 11);
    }
    lemma_decimal_short(
        if n < 0 {
            (-n) as nat
        } else {
            n as nat
        },
        10,
    );
}

proof fn lemma_title_short(filter: FilterState)
    ensures
        title(filter).len() <= 48,
{
    reveal_strlit("MADGWICK 3D AHRS");
    reveal_strlit("VQF 3D AHRS");
    reveal_strlit(" MCAL");
    reveal_strlit(" RAWMAG");
    reveal_strlit(" REST");
    reveal_strlit("");
    lemma_short_characters("MADGWICK 3D AHRS"@);
    lemma_short_characters("VQF 3D AHRS"@);
    lemma_short_characters(" MCAL"@);
    lemma_short_characters(" RAWMAG"@);
    lemma_short_characters(" REST"@);
    lemma_short_characters(""@);
}

/// The attitude is never cut: whatever the angles, it fits into its text.
pub proof fn law_attitude_fits(filter: FilterState, pitch: i32, roll: i32, yaw: i32)
    ensures
        cut(attitude_text(filter, pitch, roll, yaw), 128) == attitude_text(
            filter,
            pitch,
            roll,
            yaw,
        ),
{
    lemma_title_short(filter);
    reveal_strlit("\nPITCH:");
    reveal_strlit("° ROLL:");
    reveal_strlit("° YAW:");
    reveal_strlit("°");
    lemma_short_characters("\nPITCH:"@);
    lemma_short_characters("° ROLL:"@);
    lemma_short_characters("° YAW:"@);
    lemma_short_characters("°"@);
    lemma_number_short(pitch);
    lemma_number_short(roll);
    lemma_number_short(yaw);
}

/// What a button asks for depends on that button alone.
pub proof fn law_buttons_are_apart(
    a: Buttons,
    b: Buttons,
    b1: bool,
    b2: bool,
    b3: bool,
    c1: bool,
    c2: bool,
    c3: bool,
)
    ensures
        a.mode == b.mode && a.b1_was_pressed == b.b1_was_pressed ==> a.asked(b1, b2, b3).mode
            == b.asked(b1, c2, c3).mode,
        a.b2_frames == b.b2_frames ==> a.asked(b1, b2, b3).calibrate == b.asked(
            c1,
            b2,
            c3,
        ).calibrate && a.asked(b1, b2, b3).calibrate_magnetometer == b.asked(
            c1,
            b2,
            c3,
        ).calibrate_magnetometer,
        a.b3_frames == b.b3_frames && a.backend == b.backend ==> a.asked(b1, b2, b3).reset
            == b.asked(c1, c2, b3).reset && a.asked(b1, b2, b3).backend == b.asked(
            c1,
            c2,
            b3,
        ).backend,
{
}

/// A button that is let go acts again when it goes down, and has to be held anew:
/// whatever came before, a frame with all three up and one with all three down ask
/// for the next mode, the zero point and a reset, and for nothing that a held button
/// asks for.
pub proof fn law_released_buttons_act_again(buttons: Buttons)
    ensures
        ({
            let up = buttons.after(false, false, false);
            let asked = up.asked(true, true, true);
            &&& asked.mode is Some && asked.mode != Some(buttons.mode)
            &&& asked.calibrate && asked.reset
            &&& !asked.calibrate_magnetometer && asked.backend is None
        }),
{
}

/// What is remembered is what was asked for: the mode and the filter change exactly
/// where a new one is asked for, to that one, and the new filter is the other one.
pub proof fn law_changes_are_remembered(buttons: Buttons, b1: bool, b2: bool, b3: bool)
    ensures
        ({
            let asked = buttons.asked(b1, b2, b3);
            let after = buttons.after(b1, b2, b3);
            &&& asked.mode is None <==> after.mode == buttons.mode
            &&& asked.mode matches Some(mode) ==> after.mode == mode
            &&& asked.backend is None <==> after.backend == buttons.backend
            &&& asked.backend matches Some(backend) ==> after.backend == backend
        }),
{
}

/// The title starts with the name of the filter, and says no more of the one that
/// does not use the magnetometer.
pub proof fn law_title_names_filter(filter: FilterState)
    ensures
        filter.backend == Backend::Madgwick ==> title(filter) == "MADGWICK 3D AHRS".spec_bytes(),
        filter.backend == Backend::Vqf ==> title(filter).take(
            "VQF 3D AHRS".spec_bytes().len() as int,
        ) == "VQF 3D AHRS".spec_bytes(),
{
    if filter.backend == Backend::Vqf {
        assert(title(filter).take("VQF 3D AHRS".spec_bytes().len() as int)
            =~= "VQF 3D AHRS".spec_bytes());
    }
}

/// The first button steps through the modes in one order.
pub proof fn law_modes_in_order(buttons: Buttons)
    requires
        !buttons.b1_was_pressed,
    ensures
        ({
            let mode = buttons.asked(true, false, false).mode;
            &&& buttons.mode is Gouraud ==> mode == Some(CraftMode::BlinnPhong)
            &&& buttons.mode is BlinnPhong ==> mode == Some(CraftMode::Solid)
            &&& buttons.mode is Solid ==> mode == Some(CraftMode::Lines)
            &&& buttons.mode is Lines ==> mode == Some(CraftMode::Gouraud)
        }),
{
}

/// A calibration after `n` samples.
pub open spec fn after_samples(calibration: Calibration, n: nat) -> Calibration
    decreases n,
{
    if n == 0 {
        calibration
    } else {
        after_samples(calibration, (n - 1) as nat).counted()
    }
}

/// A calibration that is started, takes `n` samples and is stopped is applied exactly
/// where there are more than 200 of them, and dropped otherwise. One that was active
/// stays so either way, and samples that come while nothing is collected do not count.
pub proof fn law_calibration_needs_samples(calibration: Calibration, before: nat, n: nat)
    requires
        !calibration.collecting,
        n <= u32::MAX,
    ensures
        ({
            let waiting = after_samples(calibration, before);
            let started = waiting.toggled();
            let collected = after_samples(started, n);
            let stopped = collected.toggled();
            &&& waiting == calibration
            &&& waiting.outcome() is Started
            &&& started.collecting && started.samples == 0
            &&& started.active == calibration.active
            &&& collected.samples == n && collected.collecting
            &&& collected.active == calibration.active
            &&& collected.outcome() is Applied <==> n > 200
            &&& collected.outcome() is Dropped <==> n <= 200
            &&& !stopped.collecting
            &&& stopped.active <==> calibration.active || n > 200
        }),
    decreases before + n,
{
    if before > 0 {
        law_calibration_needs_samples(calibration, (before - 1) as nat, n);
    } else if n > 0 {
        law_calibration_needs_samples(calibration, 0, (n - 1) as nat);
    }
}

/// The filter takes every reading of which both parts came, whether it is logged or
/// not; a warning names a part that failed, comes only where it is logged, and is not
/// left out there; and without a sensor nothing is done.
pub proof fn law_sensor_is_read(imu_ok: bool, accel_ok: bool, gyro_ok: bool, logged: bool)
    ensures
        ({
            let step = step_of(imu_ok, accel_ok, gyro_ok, logged);
            &&& step is Update <==> imu_ok && accel_ok && gyro_ok
            &&& step is WarnAccel ==> !accel_ok && logged
            &&& step is WarnGyro ==> !gyro_ok && accel_ok && logged
            &&& imu_ok && logged ==> !(step is Nothing)
            &&& !imu_ok ==> step is Nothing
        }),
{
}

/// One frame in sixty is logged, the first among them.
pub proof fn law_log_is_regular(frame_count: u32, next: u32)
    ensures
        log_due(0),
        log_due(frame_count) && frame_count < next < frame_count + 60 ==> !log_due(next),
        next == frame_count + 60 ==> log_due(next) == log_due(frame_count),
{
}

/// The angles are read back: after the title and between their words stand three
/// numbers, each of at least four characters with spaces before it, which are the
/// angles in decimal.
pub proof fn law_angles_read_back(filter: FilterState, pitch: i32, roll: i32, yaw: i32)
    ensures
        exists|a: Seq<u8>, b: Seq<u8>, c: Seq<u8>|
            #![trigger shows_number(a, pitch as int), shows_number(b, roll as int),
                shows_number(c, yaw as int)]
            {
                &&& attitude_text(filter, pitch, roll, yaw) == title(filter)
                    + "\nPITCH:".spec_bytes() + a + "° ROLL:".spec_bytes() + b
                    + "° YAW:".spec_bytes() + c + "°".spec_bytes()
                &&& shows_number(a, pitch as int)
                &&& shows_number(b, roll as int)
                &&& shows_number(c, yaw as int)
            },
{
    lemma_shows_number(pitch as int);
    lemma_shows_number(roll as int);
    lemma_shows_number(yaw as int);
}

/// The bytes show a number at the right of four or more characters: spaces, a minus
/// sign where it is negative, and the digits of its size.
pub open spec fn shows_number(bytes: Seq<u8>, n: int) -> bool {
    bytes.len() >= 4 && exists|at: int|
        #![trigger bytes.skip(at)]
        {
            &&& 0 <= at < bytes.len()
            &&& forall|i: int| 0 <= i < at ==> #[trigger] bytes[i] == 32
            &&& at > 0 ==> bytes.len() == 4
            &&& n >= 0 ==> decimal_value(bytes.skip(at)) == n && 48 <= bytes[at] <= 57
            &&& n < 0 ==> bytes[at] == 45 && decimal_value(bytes.skip(at).skip(1)) == -n
        }
}

proof fn lemma_shows_number(n: int)
    ensures
        shows_number(padded(signed_decimal(n), 4), n),
{
    let s = signed_decimal(n);
    let all = padded(s, 4);
    law_padding_is_in_front(s, 4);
    law_sign_reads_back(n);
    let size = if n < 0 {
        (-n) as nat
    } else {
        n as nat
    };
    law_no_leading_zero(size);
    lemma_decimal_digits(size);
    let at = all.len() - s.len();
    assert(all.skip(at) == s);
    assert(all[at] == all.skip(at)[0]);
    if n >= 0 {
        assert(48 <= decimal(size)[0] <= 57);
    }
}

} // verus!
