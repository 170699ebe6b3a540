use vstd::prelude::*;

verus! {

/// The step that a loop of about 60 frames per second is run with, in the
/// counts that `pause` takes: at most 16 milliseconds of waiting a frame.
pub const STEP_60: u64 = 16666;

/// How many milliseconds a loop with step `step` waits before a frame when
/// `elapsed` has gone by since the last one.
///
/// `step` and `elapsed` are counts in the unit of the clock, which ticks in
/// nanoseconds. Once the step is used up the loop does not wait. Else it
/// takes what is left of the step, cut to 32 bits, and waits one
/// millisecond for every thousand counts of it. A thousand counts are a
/// microsecond on the clock, so the loop waits a thousand times as long as
/// what is left of the step: a step of 16666 gives a frame about every 16
/// milliseconds.
pub open spec fn pause_of(step: u64, elapsed: u64) -> int {
    if elapsed < step {
        ((step - elapsed) % 0x1_0000_0000) / 1000
    } else {
        0
    }
}

/// Computes `pause_of`.
pub fn pause(step: u64, elapsed: u64) -> (millis: u32)
    ensures
        millis == pause_of(step, elapsed),
{
    if elapsed < step {
        let left: u64 = (step - elapsed) % 0x1_0000_0000;
        (left / 1000) as u32
    } else {
        0
    }
}

} // verus!
