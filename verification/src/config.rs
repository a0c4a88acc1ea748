//! The engine's configuration, as plain values: timing and retry knobs and
//! each provider's credentials and recipients. The process reads raw
//! environment text and hands it to the parsing functions here.

use vstd::prelude::*;

use crate::alerts::AlertLevel;
use crate::recipients::CommunicationRecipient;
use crate::text::{parse_u64, spec_parse_u64, spec_split, spec_trim, split_string, trim_spaces};

verus! {

/// Everything the engine is configured with. A provider's fields left
/// `None` exclude that provider at registry construction.
#[derive(Clone)]
pub struct EnvConfig {
    /// Minimum seconds between two processed alarm-severity events.
    pub alarm_cooldown: u64,
    /// Per-provider delivery attempt ceiling.
    pub alerts_retry_max: u64,
    /// Base seconds of the backoff between attempts.
    pub alerts_retry_delay: u64,
    /// Ceiling in seconds of the backoff between attempts.
    pub alerts_retry_max_delay: u64,
    /// Permits in the pool bounding simultaneous non-alarm dispatches.
    pub alerts_concurrency_limit: u64,
    pub pushover_token: Option<String>,
    pub pushover_users: Option<Vec<CommunicationRecipient>>,
    pub text_anywhere_originator: Option<String>,
    pub text_anywhere_username: Option<String>,
    pub text_anywhere_password: Option<String>,
    pub text_anywhere_destinations: Option<Vec<CommunicationRecipient>>,
    pub sms_url: Option<String>,
    pub sms_recipients: Option<Vec<CommunicationRecipient>>,
}

/// The value a raw configuration entry denotes: the parsed number when the
/// entry is present and is a plain decimal, the default otherwise.
pub open spec fn spec_env_default(raw: Option<String>, default: u64) -> u64 {
    match raw {
        Some(s) => match spec_parse_u64(s@) {
            Some(v) => v,
            None => default,
        },
        None => default,
    }
}

/// Reads one numeric configuration entry, already looked up by the caller:
/// an absent or unparsable entry falls back to the default.
pub fn get_env_default(raw: Option<String>, default: u64) -> (r: u64)
    ensures
        r == spec_env_default(raw, default),
{
    match raw {
        Some(s) => match parse_u64(s.as_str()) {
            Some(v) => v,
            None => default,
        },
        None => default,
    }
}

/// The target half of one recipient entry: everything before a trailing
/// `=` and severity rank, or the whole entry when it has no such suffix.
pub open spec fn spec_entry_target(t: Seq<char>) -> Seq<char> {
    if t.len() >= 2 && t[t.len() - 2] == '=' && 48 <= t.last() as u32 <= 51 {
        t.take(t.len() - 2)
    } else {
        t
    }
}

/// The severity half of one recipient entry: the rank named by a trailing
/// `=` and digit, or the default when the entry has no such suffix.
pub open spec fn spec_entry_level(t: Seq<char>, default: AlertLevel) -> AlertLevel {
    if t.len() >= 2 && t[t.len() - 2] == '=' && 48 <= t.last() as u32 <= 51 {
        AlertLevel::spec_of_rank((t.last() as u32 - 48) as u8)
    } else {
        default
    }
}

/// Reads one recipient entry, already trimmed: a target, optionally
/// followed by `=` and the digit of its minimum severity's rank.
fn parse_recipient_entry(t: &str, default: AlertLevel) -> (r: CommunicationRecipient)
    ensures
        r.target@ == spec_entry_target(t@),
        r.min_level == spec_entry_level(t@, default),
{
    let n = t.unicode_len();
    if n >= 2 {
        let rank_char = t.get_char(n - 1) as u32;
        if t.get_char(n - 2) == '=' && 48 <= rank_char && rank_char <= 51 {
            let level = match AlertLevel::try_from_rank((rank_char - 48) as u8) {
                Some(level) => level,
                None => default,
            };
            return CommunicationRecipient {
                target: t.substring_char(0, n - 2).to_owned(),
                min_level: level,
            };
        }
    }
    CommunicationRecipient { target: t.to_owned(), min_level: default }
}

/// Reads a comma-separated recipient list: each entry is trimmed, and an
/// entry `target=R` subscribes the target at the severity of rank `R`;
/// a bare entry subscribes at the default level.
pub fn parse_recipients(s: &str, default: AlertLevel) -> (r: Vec<CommunicationRecipient>)
    ensures
        ({
            let segs = spec_split(s@, ',');
            &&& r@.len() == segs.len()
            &&& forall|i: int|
                0 <= i < segs.len() ==> #[trigger] r@[i].target@ == spec_entry_target(
                    spec_trim(segs[i]),
                ) && r@[i].min_level == spec_entry_level(spec_trim(segs[i]), default)
        }),
{
    let parts = split_string(s, ',');
    let mut r: Vec<CommunicationRecipient> = Vec::new();
    let mut i: usize = 0;
    while i < parts.len()
        invariant
            i <= parts@.len(),
            parts@.map_values(|p: String| p@) == spec_split(s@, ','),
            r@.len() == i,
            forall|k: int|
                0 <= k < i ==> #[trigger] r@[k].target@ == spec_entry_target(
                    spec_trim(spec_split(s@, ',')[k]),
                ),
            forall|k: int|
                0 <= k < i ==> #[trigger] r@[k].min_level == spec_entry_level(
                    spec_trim(spec_split(s@, ',')[k]),
                    default,
                ),
        decreases parts@.len() - i,
    {
        proof {
            assert(parts@.map_values(|p: String| p@)[i as int] == parts@[i as int]@);
        }
        let ghost before = r@;
        let trimmed = trim_spaces(parts[i].as_str());
        let recipient = parse_recipient_entry(trimmed.as_str(), default);
        r.push(recipient);
        proof {
            assert forall|k: int|
                0 <= k < i + 1 implies #[trigger] r@[k].target@ == spec_entry_target(
                spec_trim(spec_split(s@, ',')[k]),
            ) && #[trigger] r@[k].min_level == spec_entry_level(
                spec_trim(spec_split(s@, ',')[k]),
                default,
            ) by {
                if k < i {
                    assert(r@[k] == before[k]);
                    assert(before[k].target@ == spec_entry_target(
                        spec_trim(spec_split(s@, ',')[k]),
                    ));
                    assert(before[k].min_level == spec_entry_level(
                        spec_trim(spec_split(s@, ',')[k]),
                        default,
                    ));
                } else {
                    assert(r@[k] == recipient);
                    assert(parts@.map_values(|p: String| p@)[k] == parts@[k]@);
                    assert(parts@[k]@ == spec_split(s@, ',')[k]);
                    assert(trimmed@ == spec_trim(spec_split(s@, ',')[k]));
                    assert(r@[k].target@ == spec_entry_target(spec_trim(spec_split(s@, ',')[k])));
                    assert(r@[k].min_level == spec_entry_level(
                        spec_trim(spec_split(s@, ',')[k]),
                        default,
                    ));
                }
            }
        }
        i = i + 1;
    }
    r
}

} // verus!
