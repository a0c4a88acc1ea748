//! The dispatcher's own state: the cooldown gate, the permit pool, the
//! retry policy, the provider registry, and the sequence counter for
//! durable pending-alert records. The process owns the queue and the
//! scheduler; every decision it takes runs through the methods here.

use vstd::prelude::*;

use crate::alerts::AlertLevel;
use crate::config::EnvConfig;
use crate::cooldown::CooldownGate;
use crate::dispatch::{spec_admit_decision, spec_admit_gate, DispatchDecision};
use crate::limiter::PermitPool;
use crate::registry::CommunicationRegistry;
use crate::retry::RetryPolicy;

verus! {

/// The greatest id in a batch of pending-record ids.
pub open spec fn spec_max_id(ids: Seq<u64>) -> int
    decreases ids.len(),
{
    if ids.len() == 0 {
        0
    } else {
        let rest = spec_max_id(ids.drop_last());
        if ids.last() >= rest {
            ids.last() as int
        } else {
            rest
        }
    }
}

/// The engine behind the dispatch loop.
pub struct AlertManager {
    pub gate: CooldownGate,
    pub pool: PermitPool,
    pub policy: RetryPolicy,
    pub communications: CommunicationRegistry,
    /// The id the next pending-alert record will be written under.
    pub next_state_id: u64,
}

impl AlertManager {
    /// Assembles the engine from its configuration and an already-built
    /// registry: a fresh cooldown gate, a full permit pool, and a sequence
    /// counter starting at zero.
    pub fn new(config: &EnvConfig, communications: CommunicationRegistry) -> (m: AlertManager)
        ensures
            m.gate.window == config.alarm_cooldown,
            m.gate.last_alarm is None,
            m.pool.limit == config.alerts_concurrency_limit,
            m.pool.in_flight == 0,
            m.pool.wf(),
            m.policy == (RetryPolicy {
                retry_max: config.alerts_retry_max,
                base_delay: config.alerts_retry_delay,
                max_delay: config.alerts_retry_max_delay,
            }),
            m.communications == communications,
            m.next_state_id == 0,
    {
        AlertManager {
            gate: CooldownGate::new(config.alarm_cooldown),
            pool: PermitPool::new(config.alerts_concurrency_limit),
            policy: RetryPolicy {
                retry_max: config.alerts_retry_max,
                base_delay: config.alerts_retry_delay,
                max_delay: config.alerts_retry_max_delay,
            },
            communications,
            next_state_id: 0,
        }
    }

    /// The admission decision for one drained alert: alarms go through the
    /// cooldown check and bypass the permit pool; everything else always
    /// dispatches behind a permit. Only the cooldown state changes.
    pub fn admit_alert(&mut self, level: AlertLevel, now: u64) -> (d: DispatchDecision)
        ensures
            d == spec_admit_decision(old(self).gate, level, now),
            final(self).gate == spec_admit_gate(old(self).gate, level, now),
            final(self).pool == old(self).pool,
            final(self).policy == old(self).policy,
            final(self).communications == old(self).communications,
            final(self).next_state_id == old(self).next_state_id,
    {
        crate::dispatch::admit_alert(&mut self.gate, level, now)
    }

    /// On startup, after the pending store was scanned: the counter resumes
    /// above every id still on disk, so a fresh id never collides with an
    /// unresolved record. With nothing left over the counter stays put.
    pub fn resume_counter(&mut self, existing_ids: &Vec<u64>)
        requires
            forall|i: int| 0 <= i < existing_ids@.len() ==> existing_ids@[i] < u64::MAX,
        ensures
            final(self).next_state_id == if existing_ids@.len() > 0 {
                spec_max_id(existing_ids@) + 1
            } else {
                old(self).next_state_id as int
            },
            final(self).gate == old(self).gate,
            final(self).pool == old(self).pool,
            final(self).policy == old(self).policy,
            final(self).communications == old(self).communications,
    {
        if existing_ids.len() == 0 {
            return ;
        }
        let mut max: u64 = 0;
        let mut i: usize = 0;
        while i < existing_ids.len()
            invariant
                i <= existing_ids@.len(),
                forall|k: int| 0 <= k < existing_ids@.len() ==> existing_ids@[k] < u64::MAX,
                max == spec_max_id(existing_ids@.take(i as int)),
                max < u64::MAX,
            decreases existing_ids@.len() - i,
        {
            proof {
                assert(existing_ids@.take(i + 1).drop_last() =~= existing_ids@.take(i as int));
                assert(existing_ids@.take(i + 1).last() == existing_ids@[i as int]);
            }
            if existing_ids[i] > max {
                max = existing_ids[i];
            }
            i = i + 1;
        }
        proof {
            assert(existing_ids@.take(existing_ids@.len() as int) =~= existing_ids@);
        }
        self.next_state_id = max + 1;
    }

    /// Takes the id for one new pending-alert record; ids are never reused
    /// within a process lifetime.
    pub fn fresh_state_id(&mut self) -> (id: u64)
        requires
            old(self).next_state_id < u64::MAX,
        ensures
            id == old(self).next_state_id,
            final(self).next_state_id == old(self).next_state_id + 1,
            final(self).gate == old(self).gate,
            final(self).pool == old(self).pool,
            final(self).policy == old(self).policy,
            final(self).communications == old(self).communications,
    {
        let id = self.next_state_id;
        self.next_state_id = self.next_state_id + 1;
        id
    }
}

} // verus!
