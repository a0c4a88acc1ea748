//! The per-provider retry protocol: attempt delivery to the outstanding
//! recipients, shrink the set by those that succeeded, back off, and try
//! again until everyone is reached, the attempt budget runs out, or the
//! provider reports itself unavailable.

use vstd::arithmetic::power2::{lemma2_to64, pow2};
use vstd::prelude::*;

use crate::alerts::AlertLevel;
use crate::recipients::{filter_recipients, spec_targets, CommunicationRecipient};

verus! {

/// Growth of the backoff stops after this many doublings.
pub const BACKOFF_EXPONENT_CAP: u64 = 6;

/// The retry configuration of the engine: how many attempts a provider
/// gets per alert, and the base and ceiling of the backoff delay.
#[derive(Clone, Copy, Debug, PartialEq, Eq, Structural)]
pub struct RetryPolicy {
    pub retry_max: u64,
    pub base_delay: u64,
    pub max_delay: u64,
}

/// The backoff that follows failed attempt number `attempt`:
/// `min(base_delay * 2^(attempt - 1), max_delay)`, with the exponent capped
/// so the product cannot grow without bound.
pub open spec fn spec_backoff(policy: RetryPolicy, attempt: nat) -> int {
    let e = if attempt - 1 <= BACKOFF_EXPONENT_CAP {
        attempt - 1
    } else {
        BACKOFF_EXPONENT_CAP as int
    };
    let raw = policy.base_delay * pow2(e as nat);
    if raw <= policy.max_delay {
        raw as int
    } else {
        policy.max_delay as int
    }
}

impl RetryPolicy {
    /// Seconds to sleep after failed attempt `attempt` before the next one.
    pub fn backoff_delay(&self, attempt: u64) -> (delay: u64)
        requires
            attempt >= 1,
        ensures
            delay == spec_backoff(*self, attempt as nat),
    {
        let e: u64 = if attempt - 1 <= BACKOFF_EXPONENT_CAP {
            attempt - 1
        } else {
            BACKOFF_EXPONENT_CAP
        };
        let factor: u64 = match e {
            0 => 1,
            1 => 2,
            2 => 4,
            3 => 8,
            4 => 16,
            5 => 32,
            _ => 64,
        };
        proof {
            lemma2_to64();
            assert((self.base_delay as u128) * (factor as u128) <= (u64::MAX as u128) * 64)
                by (nonlinear_arith)
                requires
                    self.base_delay <= u64::MAX && factor <= 64,
            ;
        }
        let raw: u128 = (self.base_delay as u128) * (factor as u128);
        if raw <= self.max_delay as u128 {
            raw as u64
        } else {
            self.max_delay
        }
    }
}

/// What one delivery attempt reported back. A provider judges each
/// attempted recipient and never fails as a whole for one of them; only a
/// transport-level condition that makes retrying pointless is reported as
/// `Unavailable`.
pub enum SendOutcome {
    /// The attempt ran; `failed` lists the attempted recipients that were
    /// not reached this time.
    Completed { failed: Vec<usize> },
    /// The provider cannot currently operate at all.
    Unavailable,
}

/// Mathematical image of a [`SendOutcome`].
pub enum SendOutcomeModel {
    Completed { failed: Seq<usize> },
    Unavailable,
}

impl View for SendOutcome {
    type V = SendOutcomeModel;

    open spec fn view(&self) -> SendOutcomeModel {
        match self {
            SendOutcome::Completed { failed } => SendOutcomeModel::Completed { failed: failed@ },
            SendOutcome::Unavailable => SendOutcomeModel::Unavailable,
        }
    }
}

/// The outstanding recipients an attempt reached: those not reported failed.
pub open spec fn spec_cleared(pending: Seq<usize>, failed: Seq<usize>) -> Seq<usize>
    decreases pending.len(),
{
    if pending.len() == 0 {
        seq![]
    } else {
        let prefix = spec_cleared(pending.drop_last(), failed);
        if !failed.contains(pending.last()) {
            prefix.push(pending.last())
        } else {
            prefix
        }
    }
}

/// The outstanding recipients still to retry: those the attempt failed for.
pub open spec fn spec_surviving(pending: Seq<usize>, failed: Seq<usize>) -> Seq<usize>
    decreases pending.len(),
{
    if pending.len() == 0 {
        seq![]
    } else {
        let prefix = spec_surviving(pending.drop_last(), failed);
        if failed.contains(pending.last()) {
            prefix.push(pending.last())
        } else {
            prefix
        }
    }
}

/// Whether `v@` holds `x`.
fn vec_contains(v: &Vec<usize>, x: usize) -> (r: bool)
    ensures
        r == v@.contains(x),
{
    let mut i: usize = 0;
    while i < v.len()
        invariant
            i <= v@.len(),
            forall|j: int| 0 <= j < i ==> v@[j] != x,
        decreases v@.len() - i,
    {
        if v[i] == x {
            return true;
        }
        i = i + 1;
    }
    false
}

/// Splits the outstanding recipients of one attempt into those reached
/// (first) and those to retry (second), keeping their order.
fn partition_by_failed(pending: &Vec<usize>, failed: &Vec<usize>) -> (r: (Vec<usize>, Vec<usize>))
    ensures
        r.0@ == spec_cleared(pending@, failed@),
        r.1@ == spec_surviving(pending@, failed@),
{
    let mut cleared: Vec<usize> = Vec::new();
    let mut surviving: Vec<usize> = Vec::new();
    let mut i: usize = 0;
    while i < pending.len()
        invariant
            i <= pending@.len(),
            cleared@ == spec_cleared(pending@.take(i as int), failed@),
            surviving@ == spec_surviving(pending@.take(i as int), failed@),
        decreases pending@.len() - i,
    {
        proof {
            assert(pending@.take(i + 1).drop_last() =~= pending@.take(i as int));
            assert(pending@.take(i + 1).last() == pending@[i as int]);
        }
        if vec_contains(failed, pending[i]) {
            surviving.push(pending[i]);
        } else {
            cleared.push(pending[i]);
        }
        i = i + 1;
    }
    proof {
        assert(pending@.take(pending@.len() as int) =~= pending@);
    }
    (cleared, surviving)
}

/// The running state of one provider's retry loop over one alert.
pub struct RetryState {
    pub policy: RetryPolicy,
    /// Recipients still to reach, in configuration order.
    pub pending: Vec<usize>,
    /// Recipients reached so far, in the order they were reached.
    pub delivered: Vec<usize>,
    /// Attempts whose outcome has been applied.
    pub attempts: u64,
}

/// What the loop does next, decided from one attempt's outcome.
#[derive(Clone, Copy, Debug, PartialEq, Eq, Structural)]
pub enum RetryDecision {
    /// Sleep this many seconds, then send to the recipients now pending.
    Retry { delay: u64 },
    /// Every targeted recipient was reached.
    Done,
    /// The attempt budget is exhausted; the pending recipients stay unsent.
    GiveUp,
    /// The provider is unavailable; retrying now is pointless.
    Abort,
}

impl RetryState {
    /// Opens the retry loop for one provider and one alert: the recipients
    /// the severity selects become pending, nothing is delivered, nothing
    /// attempted. Returns nothing when no recipient is targeted: the
    /// provider is skipped, which is a no-op, not a failure.
    pub fn start(
        recipients: &Vec<CommunicationRecipient>,
        level: AlertLevel,
        policy: RetryPolicy,
    ) -> (r: Option<RetryState>)
        ensures
            match r {
                Some(st) => spec_targets(recipients@, level).len() > 0 && st.pending@
                    == spec_targets(recipients@, level) && st.delivered@ == Seq::<usize>::empty()
                    && st.attempts == 0 && st.policy == policy,
                None => spec_targets(recipients@, level).len() == 0,
            },
    {
        let targets = filter_recipients(recipients, level);
        if targets.len() == 0 {
            None
        } else {
            Some(RetryState { policy, pending: targets, delivered: Vec::new(), attempts: 0 })
        }
    }

    /// Applies one attempt's outcome: recipients the attempt reached move
    /// from pending to delivered, and the loop goes on exactly while some
    /// recipient is pending, the budget allows another attempt, and the
    /// provider is still available.
    pub fn step(&mut self, outcome: &SendOutcome) -> (d: RetryDecision)
        requires
            old(self).attempts < old(self).policy.retry_max,
            old(self).pending@.len() > 0,
        ensures
            final(self).policy == old(self).policy,
            final(self).attempts == old(self).attempts + 1,
            match outcome@ {
                SendOutcomeModel::Unavailable => d == RetryDecision::Abort && final(self).pending@
                    == old(self).pending@ && final(self).delivered@ == old(self).delivered@,
                SendOutcomeModel::Completed { failed } => {
                    &&& final(self).pending@ == spec_surviving(old(self).pending@, failed)
                    &&& final(self).delivered@ == old(self).delivered@ + spec_cleared(
                        old(self).pending@,
                        failed,
                    )
                    &&& d == if spec_surviving(old(self).pending@, failed).len() == 0 {
                        RetryDecision::Done
                    } else if old(self).attempts + 1 == old(self).policy.retry_max {
                        RetryDecision::GiveUp
                    } else {
                        RetryDecision::Retry {
                            delay: spec_backoff(old(self).policy, (old(self).attempts + 1) as nat)
                                as u64,
                        }
                    }
                },
            },
    {
        self.attempts = self.attempts + 1;
        match outcome {
            SendOutcome::Unavailable => RetryDecision::Abort,
            SendOutcome::Completed { failed } => {
                let (cleared, surviving) = partition_by_failed(&self.pending, failed);
                let mut cleared = cleared;
                self.delivered.append(&mut cleared);
                self.pending = surviving;
                if self.pending.len() == 0 {
                    RetryDecision::Done
                } else if self.attempts == self.policy.retry_max {
                    RetryDecision::GiveUp
                } else {
                    RetryDecision::Retry { delay: self.policy.backoff_delay(self.attempts) }
                }
            },
        }
    }
}

/// What a whole retry loop amounts to, mathematically: who was reached,
/// who never was, how many attempts ran, and whether the loop ended on an
/// unavailable provider.
pub struct RetryRun {
    pub delivered: Seq<usize>,
    pub unsent: Seq<usize>,
    pub attempts: nat,
    pub unavailable: bool,
}

/// The retry loop as a function of the attempt outcomes: attempt `k` of
/// the loop sees `outcomes[k]`. The loop stops on full success, on an
/// unavailable provider, or when `budget` attempts are spent.
pub open spec fn spec_retry(pending: Seq<usize>, outcomes: Seq<SendOutcomeModel>, budget: nat) -> RetryRun
    decreases budget,
{
    if budget == 0 || outcomes.len() == 0 || pending.len() == 0 {
        RetryRun { delivered: seq![], unsent: pending, attempts: 0, unavailable: false }
    } else {
        match outcomes[0] {
            SendOutcomeModel::Unavailable => RetryRun {
                delivered: seq![],
                unsent: pending,
                attempts: 1,
                unavailable: true,
            },
            SendOutcomeModel::Completed { failed } => {
                let cleared = spec_cleared(pending, failed);
                let surviving = spec_surviving(pending, failed);
                if surviving.len() == 0 {
                    RetryRun { delivered: cleared, unsent: seq![], attempts: 1, unavailable: false }
                } else {
                    let rest = spec_retry(surviving, outcomes.drop_first(), (budget - 1) as nat);
                    RetryRun {
                        delivered: cleared + rest.delivered,
                        unsent: rest.unsent,
                        attempts: 1 + rest.attempts,
                        unavailable: rest.unavailable,
                    }
                }
            },
        }
    }
}

/// An attempt reaches exactly the outstanding recipients it did not fail
/// for, and the two halves of the split cover the outstanding set without
/// overlap.
pub proof fn lemma_partition_contains(pending: Seq<usize>, failed: Seq<usize>)
    ensures
        forall|x: usize|
            #[trigger] spec_cleared(pending, failed).contains(x) <==> pending.contains(x)
                && !failed.contains(x),
        forall|x: usize|
            #[trigger] spec_surviving(pending, failed).contains(x) <==> pending.contains(x)
                && failed.contains(x),
    decreases pending.len(),
{
    if pending.len() > 0 {
        lemma_partition_contains(pending.drop_last(), failed);
        let cleared = spec_cleared(pending, failed);
        let surviving = spec_surviving(pending, failed);
        let cp = spec_cleared(pending.drop_last(), failed);
        let sp = spec_surviving(pending.drop_last(), failed);
        assert forall|x: usize| #[trigger] cleared.contains(x) implies pending.contains(x)
            && !failed.contains(x) by {
            let w = choose|w: int| 0 <= w < cleared.len() && cleared[w] == x;
            if !failed.contains(pending.last()) {
                assert(cleared == cp.push(pending.last()));
                if w < cp.len() {
                    assert(cp.contains(x));
                    assert(pending.drop_last().contains(x));
                    let v = choose|v: int| 0 <= v < pending.drop_last().len()
                        && pending.drop_last()[v] == x;
                    assert(pending[v] == x);
                } else {
                    assert(x == pending.last());
                    assert(pending[pending.len() - 1] == x);
                }
            } else {
                assert(cleared == cp);
                assert(cp.contains(x));
                assert(pending.drop_last().contains(x));
                let v = choose|v: int| 0 <= v < pending.drop_last().len() && pending.drop_last()[v]
                    == x;
                assert(pending[v] == x);
            }
        }
        assert forall|x: usize|
            pending.contains(x) && !failed.contains(x) implies #[trigger] cleared.contains(x) by {
            let w = choose|w: int| 0 <= w < pending.len() && pending[w] == x;
            if w < pending.len() - 1 {
                assert(pending.drop_last()[w] == x);
                assert(pending.drop_last().contains(x));
                assert(cp.contains(x));
                let v = choose|v: int| 0 <= v < cp.len() && cp[v] == x;
                if !failed.contains(pending.last()) {
                    assert(cleared == cp.push(pending.last()));
                }
                assert(cleared[v] == x);
            } else {
                assert(x == pending.last());
                assert(cleared == cp.push(x));
                assert(cleared.last() == x);
            }
        }
        assert forall|x: usize| #[trigger] surviving.contains(x) implies pending.contains(x)
            && failed.contains(x) by {
            let w = choose|w: int| 0 <= w < surviving.len() && surviving[w] == x;
            if failed.contains(pending.last()) {
                assert(surviving == sp.push(pending.last()));
                if w < sp.len() {
                    assert(sp.contains(x));
                    assert(pending.drop_last().contains(x));
                    let v = choose|v: int| 0 <= v < pending.drop_last().len()
                        && pending.drop_last()[v] == x;
                    assert(pending[v] == x);
                } else {
                    assert(x == pending.last());
                    assert(pending[pending.len() - 1] == x);
                }
            } else {
                assert(surviving == sp);
                assert(sp.contains(x));
                assert(pending.drop_last().contains(x));
                let v = choose|v: int| 0 <= v < pending.drop_last().len() && pending.drop_last()[v]
                    == x;
                assert(pending[v] == x);
            }
        }
        assert forall|x: usize|
            pending.contains(x) && failed.contains(x) implies #[trigger] surviving.contains(x) by {
            let w = choose|w: int| 0 <= w < pending.len() && pending[w] == x;
            if w < pending.len() - 1 {
                assert(pending.drop_last()[w] == x);
                assert(pending.drop_last().contains(x));
                assert(sp.contains(x));
                let v = choose|v: int| 0 <= v < sp.len() && sp[v] == x;
                if failed.contains(pending.last()) {
                    assert(surviving == sp.push(pending.last()));
                }
                assert(surviving[v] == x);
            } else {
                assert(x == pending.last());
                assert(surviving == sp.push(x));
                assert(surviving.last() == x);
            }
        }
    }
}

/// What becomes of each targeted recipient over one whole retry loop: it
/// ends delivered or unsent, never both, and nothing ends in either list
/// that was not targeted; the loop spends at most its attempt budget. A
/// recipient reached at some attempt leaves the outstanding set for good,
/// so it ends only in `delivered`.
pub proof fn lemma_retry_accounts_for_everyone(
    pending: Seq<usize>,
    outcomes: Seq<SendOutcomeModel>,
    budget: nat,
)
    ensures
        spec_retry(pending, outcomes, budget).attempts <= budget,
        forall|x: usize|
            #![trigger spec_retry(pending, outcomes, budget).delivered.contains(x)]
            #![trigger spec_retry(pending, outcomes, budget).unsent.contains(x)]
            #![trigger pending.contains(x)]
            pending.contains(x) <==> (spec_retry(pending, outcomes, budget).delivered.contains(x)
                || spec_retry(pending, outcomes, budget).unsent.contains(x)),
        forall|x: usize|
            #![trigger spec_retry(pending, outcomes, budget).delivered.contains(x)]
            #![trigger spec_retry(pending, outcomes, budget).unsent.contains(x)]
            !(spec_retry(pending, outcomes, budget).delivered.contains(x) && spec_retry(
                pending,
                outcomes,
                budget,
            ).unsent.contains(x)),
    decreases budget,
{
    let run = spec_retry(pending, outcomes, budget);
    if budget == 0 || outcomes.len() == 0 || pending.len() == 0 {
    } else {
        match outcomes[0] {
            SendOutcomeModel::Unavailable => {},
            SendOutcomeModel::Completed { failed } => {
                lemma_partition_contains(pending, failed);
                let cleared = spec_cleared(pending, failed);
                let surviving = spec_surviving(pending, failed);
                if surviving.len() == 0 {
                    assert(run.delivered == cleared);
                    assert forall|x: usize| pending.contains(x) implies #[trigger] run
                        .delivered.contains(x) by {
                        if failed.contains(x) {
                            assert(surviving.contains(x));
                        }
                    }
                } else {
                    lemma_retry_accounts_for_everyone(
                        surviving,
                        outcomes.drop_first(),
                        (budget - 1) as nat,
                    );
                    let rest = spec_retry(surviving, outcomes.drop_first(), (budget - 1) as nat);
                    assert forall|x: usize| #[trigger] run.delivered.contains(x) implies
                        cleared.contains(x) || rest.delivered.contains(x) by {
                        let w = choose|w: int| 0 <= w < run.delivered.len() && run.delivered[w]
                            == x;
                        if w < cleared.len() {
                            assert(cleared[w] == x);
                        } else {
                            assert(rest.delivered[w - cleared.len()] == x);
                        }
                    }
                    assert forall|x: usize|
                        cleared.contains(x) || rest.delivered.contains(
                            x,
                        ) implies #[trigger] run.delivered.contains(x) by {
                        if cleared.contains(x) {
                            let w = choose|w: int| 0 <= w < cleared.len() && cleared[w] == x;
                            assert(run.delivered[w] == x);
                        } else {
                            let w = choose|w: int|
                                0 <= w < rest.delivered.len() && rest.delivered[w] == x;
                            assert(run.delivered[cleared.len() + w] == x);
                        }
                    }
                    assert(run.unsent == rest.unsent);
                    assert forall|x: usize|
                        pending.contains(x) implies (#[trigger] run.delivered.contains(x)
                        || #[trigger] run.unsent.contains(x)) by {
                        if failed.contains(x) {
                            assert(surviving.contains(x));
                        } else {
                            assert(cleared.contains(x));
                        }
                    }
                    assert forall|x: usize|
                        #[trigger] run.delivered.contains(x)
                            || #[trigger] run.unsent.contains(x) implies pending.contains(x) by {
                        if run.delivered.contains(x) {
                            if cleared.contains(x) {
                            } else {
                                assert(rest.delivered.contains(x));
                                lemma_retry_accounts_for_everyone(
                                    surviving,
                                    outcomes.drop_first(),
                                    (budget - 1) as nat,
                                );
                                assert(surviving.contains(x));
                            }
                        } else {
                            assert(rest.unsent.contains(x));
                            lemma_retry_accounts_for_everyone(
                                surviving,
                                outcomes.drop_first(),
                                (budget - 1) as nat,
                            );
                            assert(surviving.contains(x));
                        }
                    }
                    assert forall|x: usize|
                        !(#[trigger] run.delivered.contains(x) && #[trigger] run.unsent.contains(
                            x,
                        )) by {
                        if run.delivered.contains(x) && run.unsent.contains(x) {
                            assert(rest.unsent.contains(x));
                            lemma_retry_accounts_for_everyone(
                                surviving,
                                outcomes.drop_first(),
                                (budget - 1) as nat,
                            );
                            assert(surviving.contains(x));
                            assert(failed.contains(x));
                            if cleared.contains(x) {
                                assert(!failed.contains(x));
                            } else {
                                assert(rest.delivered.contains(x));
                            }
                        }
                    }
                }
            },
        }
    }
}

/// Exhaustion: a recipient set that every attempt fails in full is still
/// unsent after exactly the budgeted number of attempts; the loop stops
/// rather than hang, and nobody is reported delivered.
pub proof fn lemma_retry_exhausts_budget(
    pending: Seq<usize>,
    outcomes: Seq<SendOutcomeModel>,
    budget: nat,
)
    requires
        pending.len() > 0,
        outcomes.len() >= budget,
        forall|i: int|
            0 <= i < budget ==> (#[trigger] outcomes[i] matches SendOutcomeModel::Completed {
                failed,
            } && forall|x: usize| pending.contains(x) ==> failed.contains(x)),
    ensures
        spec_retry(pending, outcomes, budget).attempts == budget,
        spec_retry(pending, outcomes, budget).delivered == Seq::<usize>::empty(),
        spec_retry(pending, outcomes, budget).unsent == pending,
        !spec_retry(pending, outcomes, budget).unavailable,
    decreases budget,
{
    if budget > 0 {
        let failed = outcomes[0]->Completed_failed;
        lemma_surviving_all_failed(pending, failed);
        let cleared = spec_cleared(pending, failed);
        let surviving = spec_surviving(pending, failed);
        if budget > 1 {
            assert forall|i: int|
                0 <= i < budget - 1 implies (#[trigger] outcomes.drop_first()[i]
                matches SendOutcomeModel::Completed { failed: f } && forall|x: usize|
                pending.contains(x) ==> f.contains(x)) by {
                assert(outcomes.drop_first()[i] == outcomes[i + 1]);
            }
            lemma_retry_exhausts_budget(pending, outcomes.drop_first(), (budget - 1) as nat);
            let rest = spec_retry(pending, outcomes.drop_first(), (budget - 1) as nat);
            assert(cleared + rest.delivered =~= Seq::<usize>::empty());
        } else {
            let rest = spec_retry(surviving, outcomes.drop_first(), 0);
            assert(cleared + rest.delivered =~= Seq::<usize>::empty());
        }
    }
}

/// When every outstanding recipient is in the failed list, the attempt
/// clears nobody and the outstanding set is unchanged.
proof fn lemma_surviving_all_failed(pending: Seq<usize>, failed: Seq<usize>)
    requires
        forall|x: usize| pending.contains(x) ==> failed.contains(x),
    ensures
        spec_surviving(pending, failed) == pending,
        spec_cleared(pending, failed) == Seq::<usize>::empty(),
    decreases pending.len(),
{
    if pending.len() > 0 {
        assert forall|x: usize| pending.drop_last().contains(x) implies failed.contains(x) by {
            let w = choose|w: int| 0 <= w < pending.drop_last().len() && pending.drop_last()[w]
                == x;
            assert(pending[w] == x);
            assert(pending.contains(x));
        }
        lemma_surviving_all_failed(pending.drop_last(), failed);
        assert(pending.contains(pending.last()));
        assert(spec_surviving(pending, failed) =~= pending);
    }
}

/// One provider's part in a broadcast, as reported to the caller: the
/// recipients the severity targeted, those reached, those given up on,
/// the attempts spent, and whether the provider was unavailable.
pub struct ProviderReport {
    pub targets: Vec<usize>,
    pub delivered: Vec<usize>,
    pub unsent: Vec<usize>,
    pub attempts: u64,
    pub unavailable: bool,
}

/// The image of an outcome trace.
pub open spec fn spec_outcomes(outcomes: Seq<SendOutcome>) -> Seq<SendOutcomeModel> {
    outcomes.map_values(|o: SendOutcome| o@)
}

/// An element-wise copy.
fn copy_indices(v: &Vec<usize>) -> (r: Vec<usize>)
    ensures
        r@ == v@,
{
    let mut r: Vec<usize> = Vec::new();
    let mut i: usize = 0;
    while i < v.len()
        invariant
            i <= v@.len(),
            r@ == v@.take(i as int),
        decreases v@.len() - i,
    {
        r.push(v[i]);
        i = i + 1;
    }
    proof {
        assert(v@.take(v@.len() as int) =~= v@);
    }
    r
}

/// Runs one provider's whole retry loop against a given trace of attempt
/// outcomes: what the loop concludes when attempt `k` comes back as
/// `outcomes[k]`. The trace must cover the attempt budget.
pub fn run_retry(
    recipients: &Vec<CommunicationRecipient>,
    level: AlertLevel,
    policy: RetryPolicy,
    outcomes: &Vec<SendOutcome>,
) -> (r: ProviderReport)
    requires
        outcomes@.len() >= policy.retry_max,
    ensures
        ({
            let targets = spec_targets(recipients@, level);
            let run = spec_retry(targets, spec_outcomes(outcomes@), policy.retry_max as nat);
            &&& r.targets@ == targets
            &&& r.delivered@ == run.delivered
            &&& r.unsent@ == run.unsent
            &&& r.attempts == run.attempts
            &&& r.unavailable == run.unavailable
            &&& r.attempts <= policy.retry_max
        }),
{
    let ghost oms = spec_outcomes(outcomes@);
    let ghost full = spec_retry(spec_targets(recipients@, level), oms, policy.retry_max as nat);
    let trace_len = outcomes.len();
    let targets = filter_recipients(recipients, level);
    let saved_targets = copy_indices(&targets);
    if targets.len() == 0 {
        return ProviderReport {
            targets: saved_targets,
            delivered: Vec::new(),
            unsent: targets,
            attempts: 0,
            unavailable: false,
        };
    }
    let mut st = RetryState { policy, pending: targets, delivered: Vec::new(), attempts: 0 };
    proof {
        assert(oms.skip(0) =~= oms);
        assert(Seq::<usize>::empty() + full.delivered =~= full.delivered);
    }
    while st.attempts < policy.retry_max
        invariant
            outcomes@.len() >= policy.retry_max,
            outcomes@.len() <= usize::MAX,
            oms == spec_outcomes(outcomes@),
            full == spec_retry(spec_targets(recipients@, level), oms, policy.retry_max as nat),
            saved_targets@ == spec_targets(recipients@, level),
            st.policy == policy,
            st.attempts <= policy.retry_max,
            st.pending@.len() > 0,
            ({
                let rest = spec_retry(
                    st.pending@,
                    oms.skip(st.attempts as int),
                    (policy.retry_max - st.attempts) as nat,
                );
                &&& full.delivered == st.delivered@ + rest.delivered
                &&& full.unsent == rest.unsent
                &&& full.attempts == st.attempts + rest.attempts
                &&& full.unavailable == rest.unavailable
            }),
        decreases policy.retry_max - st.attempts,
    {
        let ghost pre = st;
        let ghost rest_pre = spec_retry(
            st.pending@,
            oms.skip(st.attempts as int),
            (policy.retry_max - st.attempts) as nat,
        );
        let idx = st.attempts as usize;
        proof {
            assert(idx as int == pre.attempts as int);
            assert(oms.skip(pre.attempts as int)[0] == oms[pre.attempts as int]);
            assert(oms[pre.attempts as int] == outcomes@[pre.attempts as int]@);
            assert(oms.skip(pre.attempts as int).drop_first() =~= oms.skip(pre.attempts + 1));
        }
        let d = st.step(&outcomes[idx]);
        proof {
            match oms[pre.attempts as int] {
                SendOutcomeModel::Unavailable => {
                    assert(rest_pre == RetryRun {
                        delivered: Seq::<usize>::empty(),
                        unsent: pre.pending@,
                        attempts: 1nat,
                        unavailable: true,
                    });
                    assert(pre.delivered@ + Seq::<usize>::empty() =~= pre.delivered@);
                },
                SendOutcomeModel::Completed { failed } => {
                    let cleared = spec_cleared(pre.pending@, failed);
                    let surviving = spec_surviving(pre.pending@, failed);
                    assert(st.delivered@ == pre.delivered@ + cleared);
                    assert(st.pending@ == surviving);
                    if surviving.len() == 0 {
                        assert(rest_pre == RetryRun {
                            delivered: cleared,
                            unsent: Seq::<usize>::empty(),
                            attempts: 1nat,
                            unavailable: false,
                        });
                        assert(pre.delivered@ + cleared =~= st.delivered@);
                        assert(st.pending@ =~= Seq::<usize>::empty());
                    } else {
                        let rest_post = spec_retry(
                            surviving,
                            oms.skip(pre.attempts + 1),
                            (policy.retry_max - pre.attempts - 1) as nat,
                        );
                        assert(rest_pre == RetryRun {
                            delivered: cleared + rest_post.delivered,
                            unsent: rest_post.unsent,
                            attempts: (1 + rest_post.attempts) as nat,
                            unavailable: rest_post.unavailable,
                        });
                        assert(pre.delivered@ + (cleared + rest_post.delivered) =~= (
                        pre.delivered@ + cleared) + rest_post.delivered);
                        if st.attempts == policy.retry_max {
                            assert(rest_post == RetryRun {
                                delivered: Seq::<usize>::empty(),
                                unsent: surviving,
                                attempts: 0nat,
                                unavailable: false,
                            });
                            assert(cleared + Seq::<usize>::empty() =~= cleared);
                            assert(pre.delivered@ + (cleared + Seq::<usize>::empty()) =~= (
                            pre.delivered@ + cleared));
                        }
                    }
                },
            }
        }
        match d {
            RetryDecision::Retry { delay: _ } => {},
            RetryDecision::Done => {
                return ProviderReport {
                    targets: saved_targets,
                    delivered: st.delivered,
                    unsent: st.pending,
                    attempts: st.attempts,
                    unavailable: false,
                };
            },
            RetryDecision::GiveUp => {
                return ProviderReport {
                    targets: saved_targets,
                    delivered: st.delivered,
                    unsent: st.pending,
                    attempts: st.attempts,
                    unavailable: false,
                };
            },
            RetryDecision::Abort => {
                return ProviderReport {
                    targets: saved_targets,
                    delivered: st.delivered,
                    unsent: st.pending,
                    attempts: st.attempts,
                    unavailable: true,
                };
            },
        }
    }
    proof {
        assert(st.delivered@ + Seq::<usize>::empty() =~= st.delivered@);
    }
    ProviderReport {
        targets: saved_targets,
        delivered: st.delivered,
        unsent: st.pending,
        attempts: st.attempts,
        unavailable: false,
    }
}

} // verus!
