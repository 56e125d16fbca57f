//! The player's controls: three buttons and the touch panel.

use vstd::prelude::*;

use crate::ft6236::{EventType, TouchPoint};

verus! {

/// Frames for which a contact counts after it was last seen.
pub const HOLD_FRAMES: u8 = 4;

/// What a look at the touch controller gave.
#[derive(Clone, Copy, Debug, PartialEq, Eq, Structural)]
pub enum TouchSample {
    /// A finger at this point.
    Contact { x: u16, y: u16 },
    /// The finger is being lifted.
    LiftUp,
    /// No point, or it could not be read.
    Nothing,
}

/// The sample for what the touch controller answered.
pub open spec fn sample_of(point: Option<TouchPoint>) -> TouchSample {
    match point {
        Some(p) => if p.event == EventType::LiftUp {
            TouchSample::LiftUp
        } else {
            TouchSample::Contact { x: p.x, y: p.y }
        },
        None => TouchSample::Nothing,
    }
}

impl TouchSample {
    /// The sample for what the touch controller answered, `None` where it has no
    /// point or could not be read.
    pub fn from_point(point: Option<TouchPoint>) -> (sample: TouchSample)
        ensures
            sample == match point {
                Some(p) => if p.event == EventType::LiftUp {
                    TouchSample::LiftUp
                } else {
                    TouchSample::Contact { x: p.x, y: p.y }
                },
                None => TouchSample::Nothing,
            },
            sample == sample_of(point),
    {
        match point {
            Some(p) => match p.event {
                EventType::LiftUp => TouchSample::LiftUp,
                _ => TouchSample::Contact { x: p.x, y: p.y },
            },
            None => TouchSample::Nothing,
        }
    }
}

/// What the player asks for in a frame.
#[derive(Clone, Copy, Debug, PartialEq, Eq, Structural)]
pub struct Controls {
    pub turn_right: bool,
    pub turn_left: bool,
    pub forward: bool,
    pub backward: bool,
    pub shoot: bool,
}

impl Controls {
    /// Anything is asked for.
    pub open spec fn any(self) -> bool {
        self.turn_right || self.turn_left || self.forward || self.backward || self.shoot
    }

    /// Whether anything is asked for.
    pub fn is_any(&self) -> (yes: bool)
        ensures
            yes == self.any(),
    {
        self.turn_right || self.turn_left || self.forward || self.backward || self.shoot
    }
}

/// What a contact at a point asks for: the left third of the screen turns left,
/// the right third turns right, and the middle walks backward, shoots and walks
/// forward, from the top down. Nothing outside the screen.
pub open spec fn zone(x: u16, y: u16) -> Controls {
    let on_screen = x < 240 && y < 320;
    let middle = on_screen && 80 <= x <= 160;
    Controls {
        turn_left: on_screen && x < 80,
        turn_right: on_screen && x > 160,
        backward: middle && y < 106,
        shoot: middle && 106 <= y < 213,
        forward: middle && y >= 213,
    }
}

/// The last contact, and the frames for which it still counts.
#[derive(Clone, Copy)]
pub struct TouchHold {
    pub x: u16,
    pub y: u16,
    pub counter: u8,
}

impl TouchHold {
    pub open spec fn wf(self) -> bool {
        self.counter <= HOLD_FRAMES
    }

    /// No contact.
    pub fn new() -> (hold: Self)
        ensures
            hold.wf(),
            hold == (TouchHold { x: 0, y: 0, counter: 0 }),
    {
        TouchHold { x: 0, y: 0, counter: 0 }
    }

    /// Whether the touch controller is to be read: its line is low, or a contact
    /// still counts.
    pub fn wants_sample(&self, line_low: bool) -> (yes: bool)
        ensures
            yes == (line_low || self.counter > 0),
    {
        line_low || self.counter > 0
    }

    /// The contact after a sample.
    pub open spec fn after(self, sample: TouchSample) -> TouchHold {
        match sample {
            TouchSample::Contact { x, y } => TouchHold { x, y, counter: HOLD_FRAMES },
            TouchSample::LiftUp => TouchHold { counter: 0, ..self },
            TouchSample::Nothing => TouchHold {
                counter: if self.counter > 0 {
                    (self.counter - 1) as u8
                } else {
                    0
                },
                ..self
            },
        }
    }

    /// Takes a sample.
    pub fn take_sample(&mut self, sample: TouchSample)
        ensures
            *final(self) == old(self).after(sample),
            old(self).wf() ==> final(self).wf(),
    {
        match sample {
            TouchSample::Contact { x, y } => {
                self.x = x;
                self.y = y;
                self.counter = HOLD_FRAMES;
            },
            TouchSample::LiftUp => {
                self.counter = 0;
            },
            TouchSample::Nothing => {
                if self.counter > 0 {
                    self.counter -= 1;
                }
            },
        }
    }

    /// What the buttons and the contact ask for together.
    pub open spec fn asked(self, b1: bool, b2: bool, b3: bool) -> Controls {
        let z = zone(self.x, self.y);
        let counts = self.counter > 0;
        Controls {
            turn_right: b1 || counts && z.turn_right,
            forward: b2 || counts && z.forward,
            turn_left: b3 || counts && z.turn_left,
            backward: counts && z.backward,
            shoot: counts && z.shoot,
        }
    }

    /// What the player asks for, given the buttons.
    pub fn controls(&self, b1: bool, b2: bool, b3: bool) -> (controls: Controls)
        ensures
            controls == self.asked(b1, b2, b3),
    {
        let mut controls = Controls {
            turn_right: b1,
            forward: b2,
            turn_left: b3,
            backward: false,
            shoot: false,
        };
        if self.counter > 0 {
            if self.x < 240 && self.y < 320 {
                if self.x < 80 {
                    controls.turn_left = true;
                } else if self.x > 160 {
                    controls.turn_right = true;
                } else {
                    if self.y < 106 {
                        controls.backward = true;
                    } else if self.y < 213 {
                        controls.shoot = true;
                    } else {
                        controls.forward = true;
                    }
                }
            }
        }
        controls
    }
}

/// The zones divide the screen: a contact on it asks for exactly one thing, and
/// one outside it for nothing.
pub proof fn law_zones_divide_screen(x: u16, y: u16)
    ensures
        ({
            let z = zone(x, y);
            let n = (if z.turn_left {
                1int
            } else {
                0
            }) + (if z.turn_right {
                1int
            } else {
                0
            }) + (if z.forward {
                1int
            } else {
                0
            }) + (if z.backward {
                1int
            } else {
                0
            }) + (if z.shoot {
                1int
            } else {
                0
            });
            n == if x < 240 && y < 320 {
                1int
            } else {
                0
            }
        }),
{
}

/// The contact after `n` samples with nothing in them.
pub open spec fn after_nothing(hold: TouchHold, n: nat) -> TouchHold
    decreases n,
{
    if n == 0 {
        hold
    } else {
        after_nothing(hold, (n - 1) as nat).after(TouchSample::Nothing)
    }
}

/// A contact that is no longer seen counts for the frames of its hold and not
/// longer, and one that is lifted ends at once.
pub proof fn law_hold_ends(hold: TouchHold, x: u16, y: u16, n: nat)
    ensures
        after_nothing(hold.after(TouchSample::Contact { x, y }), n).counter == if n
            < HOLD_FRAMES {
            (HOLD_FRAMES - n) as u8
        } else {
            0
        },
        hold.after(TouchSample::LiftUp).counter == 0,
    decreases n,
{
    if n > 0 {
        law_hold_ends(hold, x, y, (n - 1) as nat);
    }
}

/// Which zone asks for what, whatever was touched before: the left third of the
/// screen turns left and the right third turns right, at any height; a contact
/// between them never turns, and walks backward in the upper third, shoots in the
/// middle third and walks forward in the lower third. Outside the screen a contact
/// asks for nothing.
pub proof fn law_zones_ask(hold: TouchHold, x: u16, y: u16)
    ensures
        ({
            let asked = hold.after(TouchSample::Contact { x, y }).asked(false, false, false);
            &&& x < 80 && y < 320 ==> asked.turn_left
            &&& 160 < x < 240 && y < 320 ==> asked.turn_right
            &&& asked.turn_left ==> x < 80 && y < 320
            &&& asked.turn_right ==> 160 < x < 240 && y < 320
            &&& asked.shoot ==> 80 <= x <= 160 && 106 <= y <= 212
            &&& asked.backward ==> 80 <= x <= 160 && y <= 105
            &&& asked.forward ==> 80 <= x <= 160 && 213 <= y <= 319
            &&& 80 <= x <= 160 && y <= 105 ==> asked.backward
            &&& 80 <= x <= 160 && 106 <= y <= 212 ==> asked.shoot
            &&& 80 <= x <= 160 && 213 <= y <= 319 ==> asked.forward
        }),
{
}

/// Buttons and contact add up: the first button turns right, the second walks
/// forward and the third turns left, each whatever is touched and whatever the other
/// two do, and what the contact asks for is asked for whatever the buttons do. A
/// contact that no longer counts asks for nothing.
pub proof fn law_buttons_add_to_contact(hold: TouchHold, b1: bool, b2: bool, b3: bool)
    ensures
        ({
            let all = hold.asked(b1, b2, b3);
            let touch = hold.asked(false, false, false);
            let ended = TouchHold { counter: 0, ..hold };
            &&& all.turn_right == (b1 || touch.turn_right)
            &&& all.forward == (b2 || touch.forward)
            &&& all.turn_left == (b3 || touch.turn_left)
            &&& all.backward == touch.backward
            &&& all.shoot == touch.shoot
            &&& ended.asked(b1, b2, b3) == (Controls {
                turn_right: b1,
                forward: b2,
                turn_left: b3,
                backward: false,
                shoot: false,
            })
        }),
{
}

/// Anything is asked for unless nothing is.
pub proof fn law_any_is_not_nothing(controls: Controls)
    ensures
        !controls.any() <==> controls == (Controls {
            turn_right: false,
            turn_left: false,
            forward: false,
            backward: false,
            shoot: false,
        }),
{
}

/// While a contact that is no longer seen still counts, it asks for what it asked
/// for when it was seen, for three more frames, and for nothing after that.
pub proof fn law_held_contact_keeps_asking(hold: TouchHold, x: u16, y: u16, n: nat)
    ensures
        ({
            let seen = hold.after(TouchSample::Contact { x, y });
            let later = after_nothing(seen, n);
            &&& later.x == x && later.y == y
            &&& n <= 3 ==> later.asked(false, false, false) == seen.asked(false, false, false)
            &&& n > 3 ==> !later.asked(false, false, false).any()
        }),
    decreases n,
{
    law_hold_ends(hold, x, y, n);
    if n > 0 {
        law_held_contact_keeps_asking(hold, x, y, (n - 1) as nat);
    }
}

/// A point is a contact at its own place unless it is being lifted, and no point is
/// no contact.
pub proof fn law_points_are_contacts(p: TouchPoint)
    ensures
        sample_of(Some(p)) is LiftUp <==> p.event is LiftUp,
        sample_of(Some(p)) matches TouchSample::Contact { x, y } ==> x == p.x && y == p.y,
        !(sample_of(Some(p)) is Nothing),
        sample_of(None) is Nothing,
{
}

} // verus!
