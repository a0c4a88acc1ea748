//! The communication registry: the fixed set of providers built once from
//! configuration, the broadcast of one alert across all of them, and the
//! accounting of the aggregate outcome.

use vstd::prelude::*;

use crate::alerts::AlertLevel;
use crate::config::EnvConfig;
use crate::providers::{PushoverConfig, SmsConfig, TextAnywhereConfig};
use crate::recipients::{spec_targets, CommunicationRecipient};
use crate::retry::{run_retry, spec_outcomes, spec_retry, ProviderReport, RetryPolicy, SendOutcome};

verus! {

/// One registered provider: a closed set of variants behind one interface.
pub enum ProviderConfig {
    Pushover(PushoverConfig),
    TextAnywhere(TextAnywhereConfig),
    Sms(SmsConfig),
}

impl ProviderConfig {
    /// The provider's configured recipients.
    pub open spec fn spec_recipients(&self) -> Seq<CommunicationRecipient> {
        match self {
            ProviderConfig::Pushover(c) => c.recipients@,
            ProviderConfig::TextAnywhere(c) => c.recipients@,
            ProviderConfig::Sms(c) => c.recipients@,
        }
    }

    /// The ordered list of recipients this provider is configured with.
    pub fn get_recipients(&self) -> (r: &Vec<CommunicationRecipient>)
        ensures
            r@ == self.spec_recipients(),
    {
        match self {
            ProviderConfig::Pushover(c) => &c.recipients,
            ProviderConfig::TextAnywhere(c) => &c.recipients,
            ProviderConfig::Sms(c) => &c.recipients,
        }
    }

    /// The provider's canonical name, for logging and registry keys.
    pub fn name(&self) -> (r: &'static str)
        ensures
            self matches ProviderConfig::Pushover(_) ==> r@ == "pushover"@,
            self matches ProviderConfig::TextAnywhere(_) ==> r@ == "text_anywhere"@,
            self matches ProviderConfig::Sms(_) ==> r@ == "sms"@,
    {
        match self {
            ProviderConfig::Pushover(_) => "pushover",
            ProviderConfig::TextAnywhere(_) => "text_anywhere",
            ProviderConfig::Sms(_) => "sms",
        }
    }
}

/// Whether the configuration carries everything the push provider needs.
pub open spec fn spec_pushover_enabled(c: EnvConfig) -> bool {
    c.pushover_token is Some && (c.pushover_users matches Some(u) && u@.len() > 0)
}

/// Whether the configuration carries everything the TextAnywhere provider
/// needs.
pub open spec fn spec_text_anywhere_enabled(c: EnvConfig) -> bool {
    c.text_anywhere_originator is Some && c.text_anywhere_username is Some
        && c.text_anywhere_password is Some && (c.text_anywhere_destinations matches Some(rs)
        && rs@.len() > 0)
}

/// Whether the configuration carries everything the SMS provider needs.
pub open spec fn spec_sms_enabled(c: EnvConfig) -> bool {
    c.sms_url is Some && (c.sms_recipients matches Some(rs) && rs@.len() > 0)
}

/// The providers a configuration yields, in the registry's fixed order:
/// each provider whose construction succeeds, with exactly the configured
/// credentials and recipients.
pub open spec fn spec_enabled_providers(c: EnvConfig) -> Seq<ProviderConfig> {
    (if spec_pushover_enabled(c) {
        seq![
            ProviderConfig::Pushover(
                PushoverConfig { token: c.pushover_token->0, recipients: c.pushover_users->0 },
            ),
        ]
    } else {
        seq![]
    }) + (if spec_text_anywhere_enabled(c) {
        seq![
            ProviderConfig::TextAnywhere(
                TextAnywhereConfig {
                    originator: c.text_anywhere_originator->0,
                    username: c.text_anywhere_username->0,
                    password: c.text_anywhere_password->0,
                    recipients: c.text_anywhere_destinations->0,
                },
            ),
        ]
    } else {
        seq![]
    }) + (if spec_sms_enabled(c) {
        seq![
            ProviderConfig::Sms(
                SmsConfig { url: c.sms_url->0, recipients: c.sms_recipients->0 },
            ),
        ]
    } else {
        seq![]
    })
}

/// No provider could be built from the configuration: there is no point
/// running without a delivery channel, so startup fails.
#[derive(Clone, Copy, Debug, PartialEq, Eq, Structural)]
pub struct RegistryError;

/// The set of configured providers, fixed for the process lifetime.
pub struct CommunicationRegistry {
    pub providers: Vec<ProviderConfig>,
}

impl CommunicationRegistry {
    /// Builds every provider the configuration allows; a provider that
    /// fails to construct is excluded, and a registry with no provider at
    /// all is refused.
    pub fn new(config: EnvConfig) -> (r: Result<CommunicationRegistry, RegistryError>)
        ensures
            match r {
                Ok(reg) => reg.providers@ == spec_enabled_providers(config) && reg.providers@.len()
                    > 0,
                Err(_) => spec_enabled_providers(config).len() == 0,
            },
    {
        let EnvConfig {
            pushover_token,
            pushover_users,
            text_anywhere_originator,
            text_anywhere_username,
            text_anywhere_password,
            text_anywhere_destinations,
            sms_url,
            sms_recipients,
            ..
        } = config;
        let mut providers: Vec<ProviderConfig> = Vec::new();
        if let Some(c) = PushoverConfig::from_config(pushover_token, pushover_users) {
            providers.push(ProviderConfig::Pushover(c));
        }
        if let Some(c) = TextAnywhereConfig::from_config(
            text_anywhere_originator,
            text_anywhere_username,
            text_anywhere_password,
            text_anywhere_destinations,
        ) {
            providers.push(ProviderConfig::TextAnywhere(c));
        }
        if let Some(c) = SmsConfig::from_config(sms_url, sms_recipients) {
            providers.push(ProviderConfig::Sms(c));
        }
        proof {
            assert(providers@ =~= spec_enabled_providers(config));
        }
        if providers.len() == 0 {
            Err(RegistryError)
        } else {
            Ok(CommunicationRegistry { providers })
        }
    }

    /// How many providers are registered.
    pub fn len(&self) -> (n: usize)
        ensures
            n == self.providers@.len(),
    {
        self.providers.len()
    }
}

/// What one provider's report must say given its outcome trace: exactly
/// the retry protocol's result over the recipients the severity targets.
pub open spec fn spec_report_ok(
    p: ProviderConfig,
    level: AlertLevel,
    policy: RetryPolicy,
    trace: Seq<SendOutcome>,
    rep: ProviderReport,
) -> bool {
    let targets = spec_targets(p.spec_recipients(), level);
    let run = spec_retry(targets, spec_outcomes(trace), policy.retry_max as nat);
    &&& rep.targets@ == targets
    &&& rep.delivered@ == run.delivered
    &&& rep.unsent@ == run.unsent
    &&& rep.attempts == run.attempts
    &&& rep.unavailable == run.unavailable
    &&& rep.attempts <= policy.retry_max
}

impl CommunicationRegistry {
    /// Broadcasts one alert across all registered providers: each provider
    /// runs its own independent retry loop, here against its own trace of
    /// attempt outcomes, and none can affect another's report.
    pub fn broadcast(
        &self,
        level: AlertLevel,
        policy: RetryPolicy,
        traces: &Vec<Vec<SendOutcome>>,
    ) -> (reports: Vec<ProviderReport>)
        requires
            traces@.len() == self.providers@.len(),
            forall|i: int| 0 <= i < traces@.len() ==> #[trigger] traces@[i]@.len()
                >= policy.retry_max,
        ensures
            reports@.len() == self.providers@.len(),
            forall|i: int| 0 <= i < reports@.len() ==> #[trigger] spec_report_ok(
                self.providers@[i],
                level,
                policy,
                traces@[i]@,
                reports@[i],
            ),
    {
        let mut reports: Vec<ProviderReport> = Vec::new();
        let mut i: usize = 0;
        while i < self.providers.len()
            invariant
                i <= self.providers@.len(),
                traces@.len() == self.providers@.len(),
                forall|k: int| 0 <= k < traces@.len() ==> #[trigger] traces@[k]@.len()
                    >= policy.retry_max,
                reports@.len() == i,
                forall|k: int| 0 <= k < i ==> #[trigger] spec_report_ok(
                    self.providers@[k],
                    level,
                    policy,
                    traces@[k]@,
                    reports@[k],
                ),
            decreases self.providers@.len() - i,
        {
            let report = run_retry(self.providers[i].get_recipients(), level, policy, &traces[i]);
            reports.push(report);
            i = i + 1;
        }
        reports
    }
}

/// The aggregate outcome of one broadcast across every provider.
#[derive(Clone, Copy, Debug, PartialEq, Eq, Structural)]
pub enum BroadcastOutcome {
    /// No provider had a recipient at this severity: a normal no-op.
    AllSkipped,
    /// Some provider had recipients, yet nobody anywhere was reached.
    TotalFailure,
    /// At least one recipient was reached; `complete` says whether every
    /// provider reached everyone it targeted.
    Delivered { complete: bool },
}

/// Whether any provider targeted at least one recipient.
pub open spec fn spec_any_participating(rs: Seq<ProviderReport>) -> bool {
    exists|i: int| 0 <= i < rs.len() && #[trigger] rs[i].targets@.len() > 0
}

/// Whether any provider reached at least one recipient.
pub open spec fn spec_any_delivered(rs: Seq<ProviderReport>) -> bool {
    exists|i: int| 0 <= i < rs.len() && #[trigger] rs[i].delivered@.len() > 0
}

/// Whether every provider concluded with nobody left unsent and its
/// transport available.
pub open spec fn spec_all_complete(rs: Seq<ProviderReport>) -> bool {
    forall|i: int| 0 <= i < rs.len() ==> #[trigger] rs[i].unsent@.len() == 0 && !rs[i].unavailable
}

/// The aggregate reading of a broadcast's reports.
pub open spec fn spec_aggregate(rs: Seq<ProviderReport>) -> BroadcastOutcome {
    if !spec_any_participating(rs) {
        BroadcastOutcome::AllSkipped
    } else if !spec_any_delivered(rs) {
        BroadcastOutcome::TotalFailure
    } else {
        BroadcastOutcome::Delivered { complete: spec_all_complete(rs) }
    }
}

/// Reads a broadcast's per-provider reports into the aggregate outcome.
pub fn aggregate_reports(reports: &Vec<ProviderReport>) -> (o: BroadcastOutcome)
    ensures
        o == spec_aggregate(reports@),
{
    let mut any_participating = false;
    let mut any_delivered = false;
    let mut all_complete = true;
    let mut i: usize = 0;
    while i < reports.len()
        invariant
            i <= reports@.len(),
            any_participating == spec_any_participating(reports@.take(i as int)),
            any_delivered == spec_any_delivered(reports@.take(i as int)),
            all_complete == spec_all_complete(reports@.take(i as int)),
        decreases reports@.len() - i,
    {
        let ghost pre = reports@.take(i as int);
        let ghost cur = reports@.take(i + 1);
        proof {
            assert(cur.drop_last() =~= pre);
            assert(cur.last() == reports@[i as int]);
            assert(forall|k: int| 0 <= k < pre.len() ==> cur[k] == pre[k]);
        }
        if reports[i].targets.len() > 0 {
            any_participating = true;
            proof {
                assert(cur[i as int].targets@.len() > 0);
            }
        }
        if reports[i].delivered.len() > 0 {
            any_delivered = true;
            proof {
                assert(cur[i as int].delivered@.len() > 0);
            }
        }
        if reports[i].unsent.len() > 0 || reports[i].unavailable {
            all_complete = false;
        }
        proof {
            if spec_any_participating(pre) {
                let w = choose|w: int| 0 <= w < pre.len() && #[trigger] pre[w].targets@.len() > 0;
                assert(cur[w].targets@.len() > 0);
            }
            if spec_any_participating(cur) && !spec_any_participating(pre) && reports@[i as int]
                .targets@.len() == 0 {
                let w = choose|w: int| 0 <= w < cur.len() && #[trigger] cur[w].targets@.len() > 0;
                assert(pre[w].targets@.len() > 0);
            }
            if spec_any_delivered(pre) {
                let w = choose|w: int| 0 <= w < pre.len() && #[trigger] pre[w].delivered@.len()
                    > 0;
                assert(cur[w].delivered@.len() > 0);
            }
            if spec_any_delivered(cur) && !spec_any_delivered(pre) && reports@[i as int]
                .delivered@.len() == 0 {
                let w = choose|w: int| 0 <= w < cur.len() && #[trigger] cur[w].delivered@.len()
                    > 0;
                assert(pre[w].delivered@.len() > 0);
            }
        }
        i = i + 1;
    }
    proof {
        assert(reports@.take(reports@.len() as int) =~= reports@);
    }
    if !any_participating {
        BroadcastOutcome::AllSkipped
    } else if !any_delivered {
        BroadcastOutcome::TotalFailure
    } else {
        BroadcastOutcome::Delivered { complete: all_complete }
    }
}

/// One provider that reached anyone keeps the whole broadcast from being
/// read as a total failure, however the others fared: an unavailable or
/// exhausted provider aborts alone.
pub proof fn lemma_partial_success_is_never_total_failure(rs: Seq<ProviderReport>, i: int)
    requires
        0 <= i < rs.len(),
        rs[i].delivered@.len() > 0,
    ensures
        !(spec_aggregate(rs) is TotalFailure),
{
}

} // verus!
