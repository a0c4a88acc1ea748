//! The alert value model: severity levels and the immutable alert event.

use vstd::prelude::*;

verus! {

/// Urgency of an alert, totally ordered: `Info < Warning < Critical < Alarm`.
/// Only `Alarm` is subject to the cooldown gate, and a recipient subscribed
/// at level `L` receives exactly the alerts whose severity is at least `L`.
#[derive(Clone, Copy, Debug, PartialEq, Eq, Structural)]
pub enum AlertLevel {
    Info,
    Warning,
    Critical,
    Alarm,
}

impl AlertLevel {
    /// The level's place in the severity order, as a small integer.
    pub open spec fn spec_rank(self) -> u8 {
        match self {
            AlertLevel::Info => 0,
            AlertLevel::Warning => 1,
            AlertLevel::Critical => 2,
            AlertLevel::Alarm => 3,
        }
    }

    /// Integer rank used for threshold comparisons.
    #[verifier::when_used_as_spec(spec_rank)]
    pub fn rank(self) -> (r: u8)
        ensures
            r == self.spec_rank(),
    {
        match self {
            AlertLevel::Info => 0,
            AlertLevel::Warning => 1,
            AlertLevel::Critical => 2,
            AlertLevel::Alarm => 3,
        }
    }

    /// Whether this is the alarm severity, the only one the cooldown gate sees.
    pub fn is_alarm(self) -> (r: bool)
        ensures
            r == (self is Alarm),
    {
        match self {
            AlertLevel::Alarm => true,
            _ => false,
        }
    }

    /// The level of a given rank, counting anything above the alarm rank
    /// as alarm.
    pub open spec fn spec_of_rank(r: u8) -> AlertLevel {
        if r == 0 {
            AlertLevel::Info
        } else if r == 1 {
            AlertLevel::Warning
        } else if r == 2 {
            AlertLevel::Critical
        } else {
            AlertLevel::Alarm
        }
    }

    /// The level whose rank is `r`, if any: the inverse of `rank`.
    pub fn try_from_rank(r: u8) -> (l: Option<AlertLevel>)
        ensures
            l == if r <= 3 {
                Some(AlertLevel::spec_of_rank(r))
            } else {
                None::<AlertLevel>
            },
            l matches Some(level) ==> level.spec_rank() == r,
    {
        match r {
            0 => Some(AlertLevel::Info),
            1 => Some(AlertLevel::Warning),
            2 => Some(AlertLevel::Critical),
            3 => Some(AlertLevel::Alarm),
            _ => None,
        }
    }
}

/// Mathematical image of an [`AlertInfo`]: its strings as character
/// sequences, with level and timestamp unchanged.
pub struct AlertModel {
    pub source: Seq<char>,
    pub message: Seq<char>,
    pub level: AlertLevel,
    pub timestamp: Option<u64>,
}

/// One alert event: who observed it, what happened, how urgent it is, and
/// when it was created (unix seconds). Immutable once constructed.
pub struct AlertInfo {
    pub source: String,
    pub message: String,
    pub level: AlertLevel,
    pub timestamp: Option<u64>,
}

impl View for AlertInfo {
    type V = AlertModel;

    open spec fn view(&self) -> AlertModel {
        AlertModel {
            source: self.source@,
            message: self.message@,
            level: self.level,
            timestamp: self.timestamp,
        }
    }
}

/// The system clock could not be read (it reads before the Unix epoch).
/// Fatal to the one construction, never to the process.
#[derive(Clone, Copy, Debug, PartialEq, Eq, Structural)]
pub struct ClockError;

/// Relies on `std::time::SystemTime::now` and
/// `SystemTime::duration_since(UNIX_EPOCH)`: whole seconds since the Unix
/// epoch, or an error when the clock reads before the epoch. The value
/// depends on the clock, so nothing is promised of it.
#[verifier::external_body]
fn unix_now_seconds() -> (r: Result<u64, ClockError>) {
    match std::time::SystemTime::now().duration_since(std::time::UNIX_EPOCH) {
        Ok(d) => Ok(d.as_secs()),
        Err(_) => Err(ClockError),
    }
}

impl AlertInfo {
    /// Builds an alert stamped with the current unix time. Fails only when
    /// the system clock cannot be read; the fields are otherwise taken as
    /// given, with a timestamp always present.
    pub fn new(source: String, message: String, level: AlertLevel) -> (r: Result<AlertInfo, ClockError>)
        ensures
            r matches Ok(a) ==> a@.source == source@ && a@.message == message@ && a@.level == level
                && a@.timestamp is Some,
    {
        let timestamp = unix_now_seconds()?;
        Ok(AlertInfo { source, message, level, timestamp: Some(timestamp) })
    }

    /// The one-line rendering of the alert, `source - message`.
    pub fn display_string(&self) -> (r: String)
        ensures
            r@ == self@.source + " - "@ + self@.message,
    {
        let mut line = self.source.clone();
        line.append(" - ");
        line.append(self.message.as_str());
        line
    }
}

} // verus!
