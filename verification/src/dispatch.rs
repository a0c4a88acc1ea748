//! The per-alert admission decision of the dispatcher: alarm events pass
//! through the cooldown gate and bypass the concurrency limiter; all other
//! severities are dispatched unconditionally behind a permit.

use vstd::prelude::*;

use crate::alerts::AlertLevel;
use crate::cooldown::{spec_suppressed, CooldownGate};

verus! {

/// What the dispatcher does with one submitted alert.
#[derive(Clone, Copy, Debug, PartialEq, Eq, Structural)]
pub enum DispatchDecision {
    /// An alarm inside the cooldown window: logged and intentionally
    /// dropped, never queued and never retried.
    Suppressed,
    /// Start a dispatch task. Alarms bypass the permit pool so they never
    /// queue behind ordinary traffic; everything else takes a permit.
    Dispatch { bypass_limiter: bool },
}

/// The decision for an alert of severity `level` arriving at `now`, with
/// the cooldown gate in state `gate`.
pub open spec fn spec_admit_decision(
    gate: CooldownGate,
    level: AlertLevel,
    now: u64,
) -> DispatchDecision {
    if level is Alarm {
        if spec_suppressed(gate.last_alarm, now, gate.window) {
            DispatchDecision::Suppressed
        } else {
            DispatchDecision::Dispatch { bypass_limiter: true }
        }
    } else {
        DispatchDecision::Dispatch { bypass_limiter: false }
    }
}

/// The cooldown state after that decision: only an alarm that went through changes it.
pub open spec fn spec_admit_gate(gate: CooldownGate, level: AlertLevel, now: u64) -> CooldownGate {
    if level is Alarm && !spec_suppressed(gate.last_alarm, now, gate.window) {
        CooldownGate { window: gate.window, last_alarm: Some(now) }
    } else {
        gate
    }
}

/// Decides one alert: the cooldown check-then-set for alarms, a plain
/// dispatch for every other severity.
pub fn admit_alert(gate: &mut CooldownGate, level: AlertLevel, now: u64) -> (d: DispatchDecision)
    ensures
        d == spec_admit_decision(*old(gate), level, now),
        *final(gate) == spec_admit_gate(*old(gate), level, now),
{
    if level.is_alarm() {
        if gate.check_and_set(now) {
            DispatchDecision::Dispatch { bypass_limiter: true }
        } else {
            DispatchDecision::Suppressed
        }
    } else {
        DispatchDecision::Dispatch { bypass_limiter: false }
    }
}

/// A severity other than alarm is never suppressed and never moves the
/// gate, whatever the timing: two such events back to back both dispatch.
pub proof fn lemma_non_alarm_always_dispatched(
    gate: CooldownGate,
    level: AlertLevel,
    t1: u64,
    t2: u64,
)
    requires
        !(level is Alarm),
    ensures
        spec_admit_decision(gate, level, t1) == (DispatchDecision::Dispatch {
            bypass_limiter: false,
        }),
        spec_admit_gate(gate, level, t1) == gate,
        spec_admit_decision(spec_admit_gate(gate, level, t1), level, t2)
            == (DispatchDecision::Dispatch { bypass_limiter: false }),
{
}

/// Two alarms where the first is admitted: the second is suppressed
/// exactly when it arrives less than one cooldown window later.
pub proof fn lemma_alarm_cooldown(gate: CooldownGate, t1: u64, t2: u64)
    requires
        spec_admit_decision(gate, AlertLevel::Alarm, t1) != DispatchDecision::Suppressed,
        t1 <= t2,
    ensures
        spec_admit_decision(spec_admit_gate(gate, AlertLevel::Alarm, t1), AlertLevel::Alarm, t2)
            == if t2 - t1 < gate.window {
            DispatchDecision::Suppressed
        } else {
            DispatchDecision::Dispatch { bypass_limiter: true }
        },
{
}

/// Resubmitting an alert the engine has already handled is admitted afresh:
/// for non-alarm severities the decision is the same both times, with no
/// record kept of the first submission.
pub proof fn lemma_resubmission_independent(
    gate: CooldownGate,
    level: AlertLevel,
    t1: u64,
    t2: u64,
)
    requires
        !(level is Alarm),
    ensures
        spec_admit_decision(spec_admit_gate(gate, level, t1), level, t2)
            == spec_admit_decision(gate, level, t1),
{
}

} // verus!
