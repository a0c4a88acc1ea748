//! The alarm cooldown gate: at most one alarm-severity dispatch per window.

use vstd::prelude::*;

verus! {

/// Seconds elapsed from `last` to `now` on a clock that never runs
/// backwards; a reading below `last` counts as no time passed.
pub open spec fn spec_elapsed(last: u64, now: u64) -> int {
    if now >= last {
        now - last
    } else {
        0
    }
}

/// Whether an alarm arriving at `now` falls inside the cooldown window
/// opened by a previous alarm at `last`.
pub open spec fn spec_suppressed(last: Option<u64>, now: u64, window: u64) -> bool {
    match last {
        Some(l) => spec_elapsed(l, now) < window,
        None => false,
    }
}

/// The single piece of shared mutable state of the engine: when the last
/// alarm went through, and how long the cooldown window is. The caller
/// serializes access; `check_and_set` is one atomic read-modify-write.
pub struct CooldownGate {
    pub window: u64,
    pub last_alarm: Option<u64>,
}

impl CooldownGate {
    /// A fresh gate: no alarm has passed yet, so the first one always will.
    pub fn new(window: u64) -> (g: CooldownGate)
        ensures
            g.window == window,
            g.last_alarm is None,
    {
        CooldownGate { window, last_alarm: None }
    }

    /// The check-then-set step an alarm takes, in one critical section.
    /// Returns true exactly when the alarm is outside the cooldown window;
    /// it then becomes the new last alarm. A suppressed alarm leaves the
    /// gate unchanged.
    pub fn check_and_set(&mut self, now: u64) -> (passed: bool)
        ensures
            passed == !spec_suppressed(old(self).last_alarm, now, old(self).window),
            final(self).window == old(self).window,
            final(self).last_alarm == if passed {
                Some(now)
            } else {
                old(self).last_alarm
            },
    {
        if let Some(last) = self.last_alarm {
            let elapsed: u64 = if now >= last {
                now - last
            } else {
                0
            };
            if elapsed < self.window {
                return false;
            }
        }
        self.last_alarm = Some(now);
        true
    }
}

} // verus!
