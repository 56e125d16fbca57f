//! Delays in cycles of the 100 MHz core clock.

use vstd::prelude::*;

verus! {

/// Cycles in `ns` nanoseconds, rounded down.
pub open spec fn cycles(ns: u32) -> int {
    ns as int / 10
}

/// Cycles of a delay of `ns` nanoseconds, which is none below ten nanoseconds.
pub fn delay_cycles(ns: u32) -> (n: u32)
    ensures
        n == cycles(ns),
{
    let n: u64 = (ns as u64 * 100) / 1000;
    n as u32
}

/// Cycles of a delay of `ns` nanoseconds, and one at the least.
pub open spec fn some_cycles(ns: u32) -> int {
    if cycles(ns) < 1 {
        1
    } else {
        cycles(ns)
    }
}

/// Cycles of a delay of `ns` nanoseconds, and one at the least.
pub fn delay_cycles_at_least_one(ns: u32) -> (n: u32)
    ensures
        n == if cycles(ns) < 1 {
            1
        } else {
            cycles(ns)
        },
        n == some_cycles(ns),
{
    let n: u32 = ns / 10;
    if n < 1 {
        1
    } else {
        n
    }
}

/// A delay lasts no longer than asked for, and less than one cycle of ten nanoseconds
/// shorter.
pub proof fn law_cycles_fit_delay(ns: u32)
    ensures
        10 * cycles(ns) <= ns < 10 * cycles(ns) + 10,
{
}

/// The delay that is never none is one cycle below twenty nanoseconds, and the other
/// delay from ten nanoseconds on.
pub proof fn law_delay_is_never_none(ns: u32)
    ensures
        some_cycles(ns) >= 1,
        ns < 20 ==> some_cycles(ns) == 1,
        ns >= 10 ==> some_cycles(ns) == cycles(ns),
{
}

} // verus!
