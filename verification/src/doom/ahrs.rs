//! Switching the attitude controls on and off: three presses of the middle button
//! in quick succession.

use vstd::prelude::*;

verus! {

/// Frames within which the three presses must fall.
pub const PRESS_WINDOW: u32 = 75;

/// Whether the attitude controls are on, and how many frames ago the button was
/// last pressed and pressed before that. A press that can no longer matter is
/// forgotten.
#[derive(Clone, Copy, Debug, PartialEq, Eq, Structural)]
pub struct AhrsSwitch {
    pub on: bool,
    pub held: bool,
    pub last: Option<u32>,
    pub before: Option<u32>,
}

/// A press a frame later, forgotten once it lies outside the window.
pub open spec fn aged(press: Option<u32>) -> Option<u32> {
    match press {
        Some(n) => if n < PRESS_WINDOW {
            Some((n + 1) as u32)
        } else {
            None
        },
        None => None,
    }
}

fn age(press: Option<u32>) -> (older: Option<u32>)
    ensures
        older == aged(press),
{
    match press {
        Some(n) => if n < PRESS_WINDOW {
            Some(n + 1)
        } else {
            None
        },
        None => None,
    }
}

impl AhrsSwitch {
    /// Off, with no press.
    pub fn new() -> (switch: Self)
        ensures
            switch == (AhrsSwitch { on: false, held: false, last: None, before: None }),
    {
        AhrsSwitch { on: false, held: false, last: None, before: None }
    }

    /// The switch after a frame in which the button was down or up. A press is the
    /// first frame of it being down. The third press within the window turns the
    /// switch over, and starts the count anew.
    pub open spec fn after(self, down: bool) -> AhrsSwitch {
        let last = aged(self.last);
        let before = aged(self.before);
        if !down || self.held {
            AhrsSwitch { on: self.on, held: down, last, before }
        } else if last is Some && before is Some {
            AhrsSwitch { on: !self.on, held: true, last: None, before: None }
        } else {
            AhrsSwitch { on: self.on, held: true, last: Some(0), before: last }
        }
    }

    /// Takes a frame in which the button was down or up.
    pub fn step(&mut self, down: bool)
        ensures
            *final(self) == old(self).after(down),
    {
        let last = age(self.last);
        let before = age(self.before);
        let pressed = down && !self.held;
        self.held = down;
        if !pressed {
            self.last = last;
            self.before = before;
        } else if last.is_some() && before.is_some() {
            self.on = !self.on;
            self.last = None;
            self.before = None;
        } else {
            self.last = Some(0);
            self.before = last;
        }
    }
}

/// The switch after `n` frames with the button up.
pub open spec fn after_up(switch: AhrsSwitch, n: nat) -> AhrsSwitch
    decreases n,
{
    if n == 0 {
        switch
    } else {
        after_up(switch, (n - 1) as nat).after(false)
    }
}

proof fn lemma_after_up(switch: AhrsSwitch, n: nat)
    requires
        n > 0,
    ensures
        ({
            let later = after_up(switch, n);
            &&& later.on == switch.on
            &&& !later.held
            &&& later.last == match switch.last {
                Some(k) => if k + n <= PRESS_WINDOW {
                    Some((k + n) as u32)
                } else {
                    None
                },
                None => None,
            }
            &&& later.before == match switch.before {
                Some(k) => if k + n <= PRESS_WINDOW {
                    Some((k + n) as u32)
                } else {
                    None
                },
                None => None,
            }
        }),
    decreases n,
{
    if n > 1 {
        lemma_after_up(switch, (n - 1) as nat);
    } else {
        assert(after_up(switch, 0) == switch);
        assert(after_up(switch, 1) == switch.after(false));
    }
}

/// Three presses, with the button up for `first` frames after the first and for
/// `second` frames after the second, turn the switch over exactly where the third
/// comes at most 75 frames after the first.
pub proof fn law_three_presses(on: bool, first: nat, second: nat)
    requires
        first > 0,
        second > 0,
    ensures
        ({
            let start = AhrsSwitch { on, held: false, last: None, before: None };
            let one = start.after(true);
            let two = after_up(one, first).after(true);
            let three = after_up(two, second).after(true);
            &&& one.on == on && two.on == on
            &&& three.on == if first + second + 2 <= PRESS_WINDOW {
                !on
            } else {
                on
            }
        }),
{
    let start = AhrsSwitch { on, held: false, last: None, before: None };
    let one = start.after(true);
    lemma_after_up(one, first);
    let two = after_up(one, first).after(true);
    lemma_after_up(two, second);
}

/// Holding the button down is one press: nothing turns over while it is held.
pub proof fn law_holding_is_one_press(switch: AhrsSwitch)
    requires
        switch.held,
    ensures
        switch.after(true).on == switch.on,
        switch.after(true).held,
{
}

/// The switch after a run of frames, in each of which the button was down or up.
pub open spec fn after_frames(frames: Seq<bool>) -> AhrsSwitch
    decreases frames.len(),
{
    if frames.len() == 0 {
        AhrsSwitch { on: false, held: false, last: None, before: None }
    } else {
        after_frames(frames.drop_last()).after(frames.last())
    }
}

/// The button was pressed in this frame: it is down, and was not in the frame before.
pub open spec fn pressed(frames: Seq<bool>, i: int) -> bool {
    0 <= i < frames.len() && frames[i] && (i == 0 || !frames[i - 1])
}

/// The switch turned over in this frame.
pub open spec fn turned(frames: Seq<bool>, i: int) -> bool {
    0 <= i < frames.len() && after_frames(frames.take(i + 1)).on != after_frames(frames.take(i)).on
}

/// What the switch remembers of a run of frames: presses that have come since it last
/// turned over, the last of them and the one before that, as far as they lie at most
/// 75 frames back.
proof fn lemma_remembered(frames: Seq<bool>)
    ensures
        ({
            let s = after_frames(frames);
            let n = frames.len() as int;
            &&& s.held == (n > 0 && frames.last())
            &&& s.last matches Some(a) ==> a <= 75 && pressed(frames, n - 1 - a)
            &&& s.before matches Some(b) ==> b <= 75 && pressed(frames, n - 1 - b)
            &&& s.before is Some && s.last is Some ==> s.before->0 > s.last->0
            &&& s.last matches Some(a) ==> forall|t: int|
                n - 1 - a <= t < n ==> !#[trigger] turned(frames, t)
            &&& s.before matches Some(b) ==> forall|t: int|
                n - 1 - b <= t < n ==> !#[trigger] turned(frames, t)
            &&& s.before is Some ==> s.last is Some
            &&& forall|p: int|
                #![trigger pressed(frames, p)]
                pressed(frames, p) && n - 1 - p <= 75 && (forall|t: int|
                    p <= t < n ==> !#[trigger] turned(frames, t)) ==> s.last is Some && s.last->0
                    <= n - 1 - p
            &&& forall|p: int, q: int|
                #![trigger pressed(frames, p), pressed(frames, q)]
                p < q && pressed(frames, p) && pressed(frames, q) && n - 1 - p <= 75 && (forall|
                    t: int,
                |
                    p <= t < n ==> !#[trigger] turned(frames, t)) ==> s.before is Some
                    && s.before->0 <= n - 1 - p
        }),
    decreases frames.len(),
{
    if frames.len() > 0 {
        let rest = frames.drop_last();
        let n = frames.len() as int;
        lemma_remembered(rest);
        let old_s = after_frames(rest);
        let s = after_frames(frames);
        assert(frames.take(n) =~= frames);
        assert(frames.take(n - 1) =~= rest);
        assert forall|p: int| p < n - 1 implies pressed(frames, p) == pressed(rest, p) by {}
        assert forall|t: int| t < n - 1 implies turned(frames, t) == turned(rest, t) by {
            if 0 <= t {
                assert(frames.take(t + 1) =~= rest.take(t + 1));
                assert(frames.take(t) =~= rest.take(t));
            }
        }
        assert(turned(frames, n - 1) <==> s.on != old_s.on);
        assert(pressed(frames, n - 1) <==> frames.last() && !old_s.held);
        if let Some(a) = old_s.last {
            assert(pressed(frames, n - 2 - a));
        }
        if let Some(b) = old_s.before {
            assert(pressed(frames, n - 2 - b));
        }
        if let Some(a) = s.last {
            assert forall|t: int| n - 1 - a <= t < n implies !#[trigger] turned(frames, t) by {
                if t < n - 1 {
                    assert(!turned(rest, t));
                }
            }
        }
        if let Some(b) = s.before {
            assert forall|t: int| n - 1 - b <= t < n implies !#[trigger] turned(frames, t) by {
                if t < n - 1 {
                    assert(!turned(rest, t));
                }
            }
        }
        assert forall|p: int|
            #![trigger pressed(frames, p)]
            pressed(frames, p) && n - 1 - p <= 75 && (forall|t: int|
                p <= t < n ==> !#[trigger] turned(frames, t)) implies s.last is Some && s.last->0
            <= n - 1 - p by {
            assert(!turned(frames, n - 1));
            if p < n - 1 {
                assert(pressed(rest, p));
                assert forall|t: int| p <= t < n - 1 implies !#[trigger] turned(rest, t) by {
                    assert(!turned(frames, t));
                }
            }
        }
        assert forall|p: int, q: int|
            #![trigger pressed(frames, p), pressed(frames, q)]
            p < q && pressed(frames, p) && pressed(frames, q) && n - 1 - p <= 75 && (forall|t: int|
                p <= t < n ==> !#[trigger] turned(frames, t)) implies s.before is Some
            && s.before->0 <= n - 1 - p by {
            assert(!turned(frames, n - 1));
            assert(pressed(rest, p));
            assert forall|t: int| p <= t < n - 1 implies !#[trigger] turned(rest, t) by {
                assert(!turned(frames, t));
            }
            if q < n - 1 {
                assert(pressed(rest, q));
            }
        }
    }
}

/// When the switch turns over, in any run of frames: exactly in the frame of a press
/// with two presses before it, of which the first lies at most 75 frames back and since
/// which the switch has not turned over.
pub proof fn law_switch_turns_over(frames: Seq<bool>, p: int, q: int)
    requires
        frames.len() > 0,
    ensures
        ({
            let n = frames.len() as int;
            &&& turned(frames, n - 1) ==> pressed(frames, n - 1) && exists|i: int, j: int|
                #![trigger pressed(frames, i), pressed(frames, j)]
                n - 1 - 75 <= i < j < n - 1 && pressed(frames, i) && pressed(frames, j) && (
                forall|t: int| i <= t < n - 1 ==> !#[trigger] turned(frames, t))
            &&& pressed(frames, n - 1) && n - 1 - 75 <= p < q < n - 1 && pressed(frames, p)
                && pressed(frames, q) && (forall|t: int|
                p <= t < n - 1 ==> !#[trigger] turned(frames, t)) ==> turned(frames, n - 1)
        }),
{
    let n = frames.len() as int;
    let rest = frames.drop_last();
    lemma_remembered(rest);
    let s = after_frames(rest);
    assert(frames.take(n) =~= frames);
    assert(frames.take(n - 1) =~= rest);
    assert forall|i: int| i < n - 1 implies pressed(frames, i) == pressed(rest, i) by {}
    assert forall|t: int| t < n - 1 implies turned(frames, t) == turned(rest, t) by {
        if 0 <= t {
            assert(frames.take(t + 1) =~= rest.take(t + 1));
            assert(frames.take(t) =~= rest.take(t));
        }
    }
    if turned(frames, n - 1) {
        let i = n - 2 - s.before->0;
        let j = n - 2 - s.last->0;
        assert(pressed(rest, i) && pressed(rest, j));
        assert(pressed(frames, i) && pressed(frames, j));
        assert forall|t: int| i <= t < n - 1 implies !#[trigger] turned(frames, t) by {
            assert(!turned(rest, t));
        }
    }
    if pressed(frames, n - 1) && n - 1 - 75 <= p < q < n - 1 && pressed(frames, p) && pressed(
        frames,
        q,
    ) && (forall|t: int| p <= t < n - 1 ==> !#[trigger] turned(frames, t)) {
        assert(pressed(rest, p) && pressed(rest, q));
        assert forall|t: int| p <= t < n - 1 implies !#[trigger] turned(rest, t) by {
            assert(!turned(frames, t));
        }
        assert forall|t: int| q <= t < n - 1 implies !#[trigger] turned(rest, t) by {
            assert(!turned(frames, t));
        }
        assert(n - 2 - p < 75);
    }
}

} // verus!
