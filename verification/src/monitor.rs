//! The monitors' decision logic: edge detection for connectivity probes,
//! the restart-and-announce supervisor for watched services, and poll
//! pacing. The probing, sleeping and process control stay with the caller;
//! every state change and every message decided on runs through here.

use vstd::prelude::*;

use crate::alerts::AlertLevel;
use crate::text::{spec_decimal, to_decimal_string};

verus! {

/// Edge detection over a connectivity probe: an alert is worth sending
/// only when the link changes state, not on every poll.
pub struct LinkMonitor {
    pub online: bool,
}

/// The state change one probe revealed.
#[derive(Clone, Copy, Debug, PartialEq, Eq, Structural)]
pub enum LinkTransition {
    CameOnline,
    WentOffline,
}

impl LinkMonitor {
    /// A fresh monitor assumes the link is up, so a healthy start stays
    /// silent and a down link is announced on the first poll.
    pub fn new() -> (m: LinkMonitor)
        ensures
            m.online,
    {
        LinkMonitor { online: true }
    }

    /// Applies one probe result: a transition comes back exactly when the
    /// observed state differs from the remembered one, which it replaces.
    pub fn observe(&mut self, currently_online: bool) -> (r: Option<LinkTransition>)
        ensures
            final(self).online == currently_online,
            r == if currently_online == old(self).online {
                None::<LinkTransition>
            } else if currently_online {
                Some(LinkTransition::CameOnline)
            } else {
                Some(LinkTransition::WentOffline)
            },
    {
        let was_online = self.online;
        self.online = currently_online;
        if currently_online == was_online {
            None
        } else if currently_online {
            Some(LinkTransition::CameOnline)
        } else {
            Some(LinkTransition::WentOffline)
        }
    }
}

/// The next poll pause: the configured interval after a success, half of
/// it (at least one second) after an error, so trouble is seen sooner.
pub fn poll_interval(interval: u64, success: bool) -> (r: u64)
    ensures
        r == if success {
            interval as int
        } else if interval as int / 2 > 1 {
            interval as int / 2
        } else {
            1
        },
{
    if success {
        interval
    } else {
        let halved = interval / 2;
        if halved > 1 {
            halved
        } else {
            1
        }
    }
}

/// One watched service: its alert severity and where the supervisor stands
/// with it.
pub struct ServiceState {
    pub level: AlertLevel,
    /// Whether the service has been announced offline and not yet back.
    pub is_offline: bool,
    /// Restart attempts since the service was last seen healthy.
    pub retry_count: u8,
}

/// What the supervisor does after reading one activity probe.
#[derive(Clone, Copy, Debug, PartialEq, Eq, Structural)]
pub enum ServiceCheckAction {
    /// The service runs and nothing was pending: leave it alone.
    Nothing,
    /// The service is back after an announced outage: announce it online.
    AnnounceOnline,
    /// The service is down within the restart budget: try a restart.
    AttemptRestart,
    /// The service is down past the restart budget: announce the outage,
    /// once.
    AnnounceOffline,
}

impl ServiceState {
    /// A fresh entry: the service is presumed healthy.
    pub fn new(level: AlertLevel) -> (s: ServiceState)
        ensures
            s.level == level,
            !s.is_offline,
            s.retry_count == 0,
    {
        ServiceState { level, is_offline: false, retry_count: 0 }
    }

    /// Applies one activity probe. A healthy service clears the counters
    /// and is announced online only after an announced outage. A down
    /// service costs one restart attempt out of `retry_attempts`; past
    /// that the outage is announced, once, and further polls stay silent.
    pub fn on_check(&mut self, active: bool, retry_attempts: u8) -> (a: ServiceCheckAction)
        ensures
            final(self).level == old(self).level,
            active ==> final(self).is_offline == false && final(self).retry_count == 0 && a
                == if old(self).is_offline {
                ServiceCheckAction::AnnounceOnline
            } else {
                ServiceCheckAction::Nothing
            },
            !active ==> final(self).retry_count == if old(self).retry_count < u8::MAX {
                old(self).retry_count + 1
            } else {
                old(self).retry_count as int
            },
            !active ==> (final(self).retry_count <= retry_attempts ==> a
                == ServiceCheckAction::AttemptRestart && final(self).is_offline
                == old(self).is_offline),
            !active ==> (final(self).retry_count > retry_attempts ==> final(self).is_offline && a
                == if old(self).is_offline {
                ServiceCheckAction::Nothing
            } else {
                ServiceCheckAction::AnnounceOffline
            }),
    {
        if active {
            let was_offline = self.is_offline;
            self.is_offline = false;
            self.retry_count = 0;
            if was_offline {
                ServiceCheckAction::AnnounceOnline
            } else {
                ServiceCheckAction::Nothing
            }
        } else {
            if self.retry_count < u8::MAX {
                self.retry_count = self.retry_count + 1;
            }
            if self.retry_count <= retry_attempts {
                ServiceCheckAction::AttemptRestart
            } else if !self.is_offline {
                self.is_offline = true;
                ServiceCheckAction::AnnounceOffline
            } else {
                ServiceCheckAction::Nothing
            }
        }
    }

    /// Applies one restart attempt's result: success clears the counters
    /// silently; failure announces the outage, once.
    pub fn on_restart_result(&mut self, restarted: bool) -> (a: ServiceCheckAction)
        ensures
            final(self).level == old(self).level,
            restarted ==> final(self).retry_count == 0 && final(self).is_offline
                == old(self).is_offline && a == ServiceCheckAction::Nothing,
            !restarted ==> final(self).retry_count == old(self).retry_count
                && final(self).is_offline && a == if old(self).is_offline {
                ServiceCheckAction::Nothing
            } else {
                ServiceCheckAction::AnnounceOffline
            },
    {
        if restarted {
            self.retry_count = 0;
            ServiceCheckAction::Nothing
        } else if !self.is_offline {
            self.is_offline = true;
            ServiceCheckAction::AnnounceOffline
        } else {
            ServiceCheckAction::Nothing
        }
    }
}

/// Seconds a connectivity probe waits before counting as failed, when the
/// configuration names nothing.
pub const DEFAULT_PING_TIMEOUT: u64 = 5;

/// Seconds between connectivity probes, when the configuration names
/// nothing.
pub const DEFAULT_PING_INTERVAL: u64 = 60;

/// One probed address: where to connect, how urgent its outages are, and
/// the probe's pacing.
pub struct PingTarget {
    pub name: String,
    pub addr: String,
    pub level: AlertLevel,
    pub timeout: u64,
    pub interval: u64,
}

impl PingTarget {
    /// Reads one configured target: the severity rank must name a level,
    /// and the timing fields fall back to their defaults.
    pub fn from_parts(
        name: String,
        addr: String,
        rank: u8,
        timeout: Option<u64>,
        interval: Option<u64>,
    ) -> (r: Option<PingTarget>)
        ensures
            match r {
                Some(t) => rank <= 3 && t.name == name && t.addr == addr && t.level
                    == AlertLevel::spec_of_rank(rank) && t.timeout == match timeout {
                    Some(v) => v,
                    None => DEFAULT_PING_TIMEOUT,
                } && t.interval == match interval {
                    Some(v) => v,
                    None => DEFAULT_PING_INTERVAL,
                },
                None => rank > 3,
            },
    {
        let level = AlertLevel::try_from_rank(rank)?;
        Some(
            PingTarget {
                name,
                addr,
                level,
                timeout: match timeout {
                    Some(v) => v,
                    None => DEFAULT_PING_TIMEOUT,
                },
                interval: match interval {
                    Some(v) => v,
                    None => DEFAULT_PING_INTERVAL,
                },
            },
        )
    }
}

/// The announcement for a service that could not be restarted.
pub fn offline_message(name: &str, attempts: u8) -> (r: String)
    ensures
        r@ == name@ + " is OFFLINE after "@ + spec_decimal(attempts as int)
            + " attempts to restart!"@,
{
    let mut r = name.to_owned();
    r.append(" is OFFLINE after ");
    let count = to_decimal_string(attempts as u64);
    r.append(count.as_str());
    r.append(" attempts to restart!");
    proof {
        assert(((name@ + " is OFFLINE after "@) + spec_decimal(attempts as int))
            + " attempts to restart!"@ =~= name@ + " is OFFLINE after "@ + spec_decimal(
            attempts as int,
        ) + " attempts to restart!"@);
    }
    r
}

/// The announcement for a service that came back.
pub fn online_message(name: &str) -> (r: String)
    ensures
        r@ == name@ + " is now ONLINE!"@,
{
    let mut r = name.to_owned();
    r.append(" is now ONLINE!");
    r
}

} // verus!
