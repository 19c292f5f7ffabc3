//! The precision deadline trigger: a coarse phase sleeps in fixed chunks
//! while the wall clock is far from the target, a fine phase busy-polls the
//! clock through the final stretch, and the trigger releases exactly within
//! the target minute, never before it.

use vstd::prelude::*;
use chrono::Timelike;

verus! {

/// A strike time as the human picks it: hour on the 12-hour dial, minute,
/// and an AM flag (true for AM).
#[derive(Clone, Copy, PartialEq, Eq, Structural, Debug)]
pub struct RegistrationTime(pub u32, pub u32, pub bool);

/// The 24-hour hour a pick means: 12 AM means midnight (0), 12 PM means
/// noon (12), and every other PM hour adds 12.
pub open spec fn normalized_hour_spec(t: RegistrationTime) -> int {
    (t.0 % 12) + if t.2 {
        0int
    } else {
        12int
    }
}

impl RegistrationTime {
    /// A valid pick: an hour of the 12-hour dial and a minute of an hour.
    pub open spec fn wf(self) -> bool {
        1 <= self.0 <= 12 && self.1 < 60
    }

    /// The hour of day the pick means, on the 24-hour clock.
    pub fn normalized_hour(&self) -> (h: u32)
        requires
            self.wf(),
        ensures
            h == normalized_hour_spec(*self),
            h < 24,
    {
        (self.0 % 12) + if self.2 {
            0
        } else {
            12
        }
    }
}

/// What the trigger does with one look at the clock.
#[derive(Clone, Copy, PartialEq, Eq, Structural, Debug)]
pub enum WaitAction {
    /// The clock reads the target minute: release now.
    Fire,
    /// The final stretch: the minute before the target, at or past its
    /// 50-second mark. Busy-poll the clock with no sleep.
    Spin,
    /// Far from the target: sleep one coarse chunk and look again.
    Sleep,
}

/// The minute before the target, with explicit rollover at the top of an
/// hour and at midnight.
pub open spec fn minute_before(h: int, m: int) -> (int, int) {
    if m == 0 {
        (
            if h == 0 {
                23
            } else {
                h - 1
            },
            59,
        )
    } else {
        (h, m - 1)
    }
}

/// What one clock reading demands: fire exactly on the target minute, spin
/// through the last ten seconds of the minute before it, sleep otherwise.
pub open spec fn wait_decision_spec(
    now_h: int,
    now_m: int,
    now_s: int,
    target_h: int,
    target_m: int,
) -> WaitAction {
    if now_h == target_h && now_m == target_m {
        WaitAction::Fire
    } else if (now_h, now_m) == minute_before(target_h, target_m) && now_s >= 50 {
        WaitAction::Spin
    } else {
        WaitAction::Sleep
    }
}

/// Decides one look at the clock.
pub fn wait_decision(now_h: u32, now_m: u32, now_s: u32, target_h: u32, target_m: u32) -> (a:
    WaitAction)
    requires
        now_h < 24,
        now_m < 60,
        now_s < 60,
        target_h < 24,
        target_m < 60,
    ensures
        a == wait_decision_spec(
            now_h as int,
            now_m as int,
            now_s as int,
            target_h as int,
            target_m as int,
        ),
{
    if now_h == target_h && now_m == target_m {
        return WaitAction::Fire;
    }
    let prev_h: u32 = if target_m == 0 {
        if target_h == 0 {
            23
        } else {
            target_h - 1
        }
    } else {
        target_h
    };
    let prev_m: u32 = if target_m == 0 {
        59
    } else {
        target_m - 1
    };
    if now_h == prev_h && now_m == prev_m && now_s >= 50 {
        WaitAction::Spin
    } else {
        WaitAction::Sleep
    }
}

/// Law: the trigger releases exactly on the target minute and never
/// before. A clock reading demands `Fire` precisely when its hour and
/// minute equal the target's, so every release carries the target's wall
/// clock; any earlier reading demands another look, asleep or spinning.
pub proof fn lemma_fire_exactly_on_target(
    now_h: int,
    now_m: int,
    now_s: int,
    target_h: int,
    target_m: int,
)
    ensures
        (wait_decision_spec(now_h, now_m, now_s, target_h, target_m) == WaitAction::Fire) <==> (
        now_h == target_h && now_m == target_m),
{
}

/// Relies on chrono's `Local::now` read through `Timelike`: `hour` is 0 to
/// 23, `minute` and `second` 0 to 59.
#[verifier::external_body]
fn clock_now_hms() -> (r: (u32, u32, u32))
    ensures
        r.0 < 24,
        r.1 < 60,
        r.2 < 60,
{
    let now = chrono::Local::now();
    (now.hour(), now.minute(), now.second())
}

/// One coarse-phase look: reads the wall clock and says what the trigger
/// must do for exactly that reading.
pub fn trigger_tick(target_h: u32, target_m: u32) -> (r: ((u32, u32, u32), WaitAction))
    requires
        target_h < 24,
        target_m < 60,
    ensures
        r.0.0 < 24 && r.0.1 < 60 && r.0.2 < 60,
        r.1 == wait_decision_spec(
            r.0.0 as int,
            r.0.1 as int,
            r.0.2 as int,
            target_h as int,
            target_m as int,
        ),
{
    let now = clock_now_hms();
    let a = wait_decision(now.0, now.1, now.2, target_h, target_m);
    (now, a)
}

} // verus!
