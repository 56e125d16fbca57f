//! Touch samples, and when they are reported to the host.

use vstd::prelude::*;

use crate::ft6236::{EventType, TouchPoint};

verus! {

/// Columns of the panel.
pub const PANEL_W: u16 = 320;

/// Rows of the panel.
pub const PANEL_H: u16 = 240;

/// Movement in pixels, along either axis, from which a held touch is reported
/// again.
pub const TOUCH_MOVE_EPS: u16 = 3;

/// The panel's pixel under a raw sample: the portrait frame of the touch
/// controller is turned by 90 degrees into the landscape frame of the panel, and
/// samples beyond an edge are moved onto it.
pub open spec fn mapped(raw_x: u16, raw_y: u16) -> (u16, u16) {
    (
        if raw_y < PANEL_W {
            raw_y
        } else {
            (PANEL_W - 1) as u16
        },
        if raw_x < PANEL_H {
            (PANEL_H - 1 - raw_x) as u16
        } else {
            0
        },
    )
}

/// Maps a raw sample into the panel's pixels.
pub fn map_touch(raw_x: u16, raw_y: u16) -> (pixel: (u16, u16))
    ensures
        pixel == mapped(raw_x, raw_y),
{
    let px: u16 = if raw_y < PANEL_W - 1 {
        raw_y
    } else {
        PANEL_W - 1
    };
    let clamped: u16 = if raw_x < PANEL_H - 1 {
        raw_x
    } else {
        PANEL_H - 1
    };
    let py: u16 = (PANEL_H - 1).saturating_sub(clamped);
    (px, py)
}

/// Every sample lands on the panel, and two samples inside the controller's frame
/// land on different pixels unless they are the same.
pub proof fn law_map_touch(x1: u16, y1: u16, x2: u16, y2: u16)
    ensures
        mapped(x1, y1).0 < PANEL_W,
        mapped(x1, y1).1 < PANEL_H,
        x1 < PANEL_H && y1 < PANEL_W && x2 < PANEL_H && y2 < PANEL_W && mapped(x1, y1) == mapped(
            x2,
            y2,
        ) ==> x1 == x2 && y1 == y2,
{
}

/// What a look at the touch controller gave.
#[derive(Clone, Copy, Debug, PartialEq, Eq, Structural)]
pub enum TouchReading {
    /// The interrupt line is high: no finger.
    LineHigh,
    /// A finger, by its raw sample.
    Contact { raw_x: u16, raw_y: u16 },
    /// The line is low, but there is no point, it is being lifted, or it could not
    /// be read.
    NoContact,
}

/// The reading of a low line, for what the touch controller answered.
pub open spec fn reading_of(point: Option<TouchPoint>) -> TouchReading {
    match point {
        Some(p) => if p.event == EventType::LiftUp {
            TouchReading::NoContact
        } else {
            TouchReading::Contact { raw_x: p.x, raw_y: p.y }
        },
        None => TouchReading::NoContact,
    }
}

impl TouchReading {
    /// The reading of a low line, for what the touch controller answered, `None`
    /// where it has no point or could not be read.
    pub fn from_point(point: Option<TouchPoint>) -> (reading: TouchReading)
        ensures
            reading == match point {
                Some(p) => if p.event == EventType::LiftUp {
                    TouchReading::NoContact
                } else {
                    TouchReading::Contact { raw_x: p.x, raw_y: p.y }
                },
                None => TouchReading::NoContact,
            },
            reading == reading_of(point),
    {
        match point {
            Some(p) => match p.event {
                EventType::LiftUp => TouchReading::NoContact,
                _ => TouchReading::Contact { raw_x: p.x, raw_y: p.y },
            },
            None => TouchReading::NoContact,
        }
    }
}

/// A touch or its end, for the host.
#[derive(Clone, Copy, Debug, PartialEq, Eq, Structural)]
pub struct TouchReport {
    pub x: u16,
    pub y: u16,
    pub pressed: bool,
}

/// The two differ by at least `TOUCH_MOVE_EPS`.
pub open spec fn apart(a: u16, b: u16) -> bool {
    a - b >= TOUCH_MOVE_EPS || b - a >= TOUCH_MOVE_EPS
}

/// A contact at `(x, y)` is reported after the last one that was.
pub open spec fn is_news(last: Option<(u16, u16)>, pixel: (u16, u16)) -> bool {
    match last {
        Some(l) => apart(pixel.0, l.0) || apart(pixel.1, l.1),
        None => true,
    }
}

/// The contact that stands reported after a reading.
pub open spec fn last_after(last: Option<(u16, u16)>, reading: TouchReading) -> Option<
    (u16, u16),
> {
    match reading {
        TouchReading::Contact { raw_x, raw_y } => if is_news(last, mapped(raw_x, raw_y)) {
            Some(mapped(raw_x, raw_y))
        } else {
            last
        },
        _ => None,
    }
}

/// What a reading is reported as: a press or a move where it is news, the end of
/// the reported contact where there is no finger, and nothing otherwise.
pub open spec fn report(last: Option<(u16, u16)>, reading: TouchReading) -> Option<TouchReport> {
    match reading {
        TouchReading::Contact { raw_x, raw_y } => if is_news(last, mapped(raw_x, raw_y)) {
            Some(
                TouchReport {
                    x: mapped(raw_x, raw_y).0,
                    y: mapped(raw_x, raw_y).1,
                    pressed: true,
                },
            )
        } else {
            None
        },
        _ => match last {
            Some(l) => Some(TouchReport { x: l.0, y: l.1, pressed: false }),
            None => None,
        },
    }
}

fn is_apart(a: u16, b: u16) -> (yes: bool)
    ensures
        yes == apart(a, b),
{
    if a >= b {
        a - b >= TOUCH_MOVE_EPS
    } else {
        b - a >= TOUCH_MOVE_EPS
    }
}

/// Takes a reading and returns a report where the state changes: a new press, a
/// release, or a move while held.
pub fn poll_touch(last: &mut Option<(u16, u16)>, reading: TouchReading) -> (sent: Option<
    TouchReport,
>)
    ensures
        *final(last) == last_after(*old(last), reading),
        sent == report(*old(last), reading),
{
    match reading {
        TouchReading::Contact { raw_x, raw_y } => {
            let (x, y) = map_touch(raw_x, raw_y);
            let moved = match *last {
                Some((lx, ly)) => is_apart(x, lx) || is_apart(y, ly),
                None => true,
            };
            if moved {
                *last = Some((x, y));
                Some(TouchReport { x, y, pressed: true })
            } else {
                None
            }
        },
        _ => {
            match last.take() {
                Some((x, y)) => Some(TouchReport { x, y, pressed: false }),
                None => None,
            }
        },
    }
}

/// The contact that stands reported after a run of readings from no contact.
pub open spec fn last_of(readings: Seq<TouchReading>) -> Option<(u16, u16)>
    decreases readings.len(),
{
    if readings.len() == 0 {
        None
    } else {
        last_after(last_of(readings.drop_last()), readings.last())
    }
}

/// The reports of a run of readings from no contact.
pub open spec fn reports_of(readings: Seq<TouchReading>) -> Seq<TouchReport>
    decreases readings.len(),
{
    if readings.len() == 0 {
        Seq::empty()
    } else {
        let before = reports_of(readings.drop_last());
        match report(last_of(readings.drop_last()), readings.last()) {
            Some(r) => before.push(r),
            None => before,
        }
    }
}

/// A press or a release in a run of reports: a release ends the contact reported
/// just before it, and a contact reported after a contact has moved.
pub open spec fn follows(reports: Seq<TouchReport>, k: int) -> bool {
    if reports[k].pressed {
        k == 0 || !reports[k - 1].pressed || apart(reports[k].x, reports[k - 1].x) || apart(
            reports[k].y,
            reports[k - 1].y,
        )
    } else {
        k > 0 && reports[k - 1] == TouchReport { pressed: true, ..reports[k] }
    }
}

/// In a run of readings from no contact, every release comes just after the press
/// it ends and with its place, and every further report of a held contact has
/// moved.
pub proof fn law_reports_are_paired(readings: Seq<TouchReading>)
    ensures
        forall|k: int| 0 <= k < reports_of(readings).len() ==> #[trigger] follows(
            reports_of(readings),
            k,
        ),
        last_of(readings) is Some <==> reports_of(readings).len() > 0 && reports_of(
            readings,
        ).last().pressed,
        last_of(readings) matches Some(l) ==> reports_of(readings).last() == (TouchReport {
            x: l.0,
            y: l.1,
            pressed: true,
        }),
    decreases readings.len(),
{
    if readings.len() > 0 {
        let rest = readings.drop_last();
        law_reports_are_paired(rest);
        let before = reports_of(rest);
        let after = reports_of(readings);
        assert forall|k: int| 0 <= k < after.len() implies #[trigger] follows(after, k) by {
            if k < before.len() {
                assert(follows(before, k));
            }
        }
    }
}

/// A finger that stays where it was reported is not reported again.
pub proof fn law_still_finger_is_silent(last: Option<(u16, u16)>, raw_x: u16, raw_y: u16)
    ensures
        report(
            last_after(last, TouchReading::Contact { raw_x, raw_y }),
            TouchReading::Contact { raw_x, raw_y },
        ) is None,
{
}

/// Where a sample lands: inside the controller's frame its row is the panel's column,
/// and its column is counted from the panel's lower edge upward; a sample beyond an
/// edge lands where the nearest one inside does.
pub proof fn law_frame_is_turned(raw_x: u16, raw_y: u16)
    ensures
        raw_y < 320 ==> mapped(raw_x, raw_y).0 == raw_y,
        raw_x < 240 ==> mapped(raw_x, raw_y).1 + raw_x == 239,
        raw_y >= 320 ==> mapped(raw_x, raw_y) == mapped(raw_x, 319),
        raw_x >= 240 ==> mapped(raw_x, raw_y) == mapped(239, raw_y),
{
}

/// Every move is reported, and no tremor is: while a contact stands reported, a
/// finger that is three or more pixels away from it in either direction along either
/// axis is reported where it is, and one that is nearer along both is not. A finger
/// is always reported where none stands reported.
pub proof fn law_moves_are_reported(last: (u16, u16), raw_x: u16, raw_y: u16)
    ensures
        ({
            let reading = TouchReading::Contact { raw_x, raw_y };
            let (x, y) = mapped(raw_x, raw_y);
            let here = TouchReport { x, y, pressed: true };
            let near = last.0 - 3 < x < last.0 + 3 && last.1 - 3 < y < last.1 + 3;
            &&& !near ==> report(Some(last), reading) == Some(here)
            &&& !near ==> last_after(Some(last), reading) == Some((x, y))
            &&& near ==> report(Some(last), reading) is None
            &&& near ==> last_after(Some(last), reading) == Some(last)
            &&& report(None, reading) == Some(here)
            &&& last_after(None, reading) == Some((x, y))
        }),
{
}

/// After any reading of a finger the place that stands reported is within two pixels
/// of it along both axes.
pub proof fn law_report_stays_near(last: Option<(u16, u16)>, raw_x: u16, raw_y: u16)
    ensures
        ({
            let (x, y) = mapped(raw_x, raw_y);
            last_after(last, TouchReading::Contact { raw_x, raw_y }) matches Some(at) && x - 2
                <= at.0 <= x + 2 && y - 2 <= at.1 <= y + 2
        }),
{
}

/// Which way a finger moves does not matter: a move and the move back are reported
/// alike.
pub proof fn law_moves_have_no_direction(x1: u16, y1: u16, x2: u16, y2: u16)
    ensures
        report(Some(mapped(x1, y1)), TouchReading::Contact { raw_x: x2, raw_y: y2 }) is Some
            <==> report(Some(mapped(x2, y2)), TouchReading::Contact { raw_x: x1, raw_y: y1 })
            is Some,
{
}

/// A contact that stands reported ends with one report, at its place, as soon as the
/// finger is gone, however that shows, and a finger that is not there is not reported
/// again.
pub proof fn law_release_is_reported_once(last: Option<(u16, u16)>, reading: TouchReading)
    requires
        !(reading is Contact),
    ensures
        last_after(last, reading) is None,
        report(last_after(last, reading), reading) is None,
        last is None ==> report(last, reading) is None,
        last matches Some(at) ==> report(last, reading) == Some(
            TouchReport { x: at.0, y: at.1, pressed: false },
        ),
{
}

/// A point is a contact at its own place unless it is being lifted, and a low line is
/// never read as a high one.
pub proof fn law_points_are_readings(p: TouchPoint)
    ensures
        reading_of(Some(p)) is NoContact <==> p.event is LiftUp,
        reading_of(Some(p)) matches TouchReading::Contact { raw_x, raw_y } ==> raw_x == p.x && raw_y
            == p.y,
        !(reading_of(Some(p)) is LineHigh),
        reading_of(None) is NoContact,
{
}

} // verus!
