//! Recipients and severity filtering: a recipient subscribed at level `L`
//! is targeted by exactly the alerts whose severity is at least `L`.

use vstd::prelude::*;

use crate::alerts::AlertLevel;

verus! {

/// One configured destination within a provider: where to deliver, and the
/// least severity worth delivering there. Static configuration, never
/// mutated at runtime.
#[derive(Clone)]
pub struct CommunicationRecipient {
    pub target: String,
    pub min_level: AlertLevel,
}

/// The positions, in configuration order, of the recipients a severity
/// `level` alert is delivered to: those whose minimum level is at most
/// `level`.
pub open spec fn spec_targets(rs: Seq<CommunicationRecipient>, level: AlertLevel) -> Seq<usize>
    decreases rs.len(),
{
    if rs.len() == 0 {
        seq![]
    } else {
        let prefix = spec_targets(rs.drop_last(), level);
        if rs.last().min_level.spec_rank() <= level.spec_rank() {
            prefix.push((rs.len() - 1) as usize)
        } else {
            prefix
        }
    }
}

/// Computes the recipient subset for one alert: the indices of every
/// recipient whose configured minimum severity is at most the alert's.
/// An empty result means the provider is skipped outright.
pub fn filter_recipients(recipients: &Vec<CommunicationRecipient>, level: AlertLevel) -> (targets:
    Vec<usize>)
    ensures
        targets@ == spec_targets(recipients@, level),
{
    let mut targets: Vec<usize> = Vec::new();
    let mut i: usize = 0;
    while i < recipients.len()
        invariant
            i <= recipients@.len(),
            targets@ == spec_targets(recipients@.take(i as int), level),
        decreases recipients@.len() - i,
    {
        proof {
            assert(recipients@.take(i + 1).drop_last() =~= recipients@.take(i as int));
            assert(recipients@.take(i + 1).last() == recipients@[i as int]);
        }
        if recipients[i].min_level.rank() <= level.rank() {
            targets.push(i);
        }
        i = i + 1;
    }
    proof {
        assert(recipients@.take(recipients@.len() as int) =~= recipients@);
    }
    targets
}

/// Exactly which indices are targeted: `i` stands in the target list if
/// and only if it indexes a recipient whose minimum level the alert meets.
/// The list is strictly increasing, so each recipient is targeted at most
/// once.
pub proof fn lemma_targets_exact(rs: Seq<CommunicationRecipient>, level: AlertLevel)
    requires
        rs.len() <= usize::MAX,
    ensures
        forall|i: usize|
            #[trigger] spec_targets(rs, level).contains(i) <==> i < rs.len()
                && rs[i as int].min_level.spec_rank() <= level.spec_rank(),
        forall|j: int, k: int|
            0 <= j < k < spec_targets(rs, level).len() ==> spec_targets(rs, level)[j]
                < spec_targets(rs, level)[k],
    decreases rs.len(),
{
    if rs.len() > 0 {
        lemma_targets_exact(rs.drop_last(), level);
        let ts = spec_targets(rs, level);
        let prefix = spec_targets(rs.drop_last(), level);
        let last_in = rs.last().min_level.spec_rank() <= level.spec_rank();
        assert forall|i: usize|
            #[trigger] ts.contains(i) implies i < rs.len() && rs[i as int].min_level.spec_rank()
            <= level.spec_rank() by {
            let w = choose|w: int| 0 <= w < ts.len() && ts[w] == i;
            if last_in {
                assert(ts == prefix.push((rs.len() - 1) as usize));
                if w < prefix.len() {
                    assert(prefix[w] == i);
                    assert(prefix.contains(i));
                    assert(rs.drop_last()[i as int] == rs[i as int]);
                } else {
                    assert(i == rs.len() - 1);
                }
            } else {
                assert(ts == prefix);
                assert(prefix[w] == i);
                assert(prefix.contains(i));
                assert(rs.drop_last()[i as int] == rs[i as int]);
            }
        }
        assert forall|i: usize|
            i < rs.len() && rs[i as int].min_level.spec_rank()
                <= level.spec_rank() implies #[trigger] ts.contains(i) by {
            if i < rs.len() - 1 {
                assert(rs.drop_last()[i as int] == rs[i as int]);
                assert(prefix.contains(i));
                let w = choose|w: int| 0 <= w < prefix.len() && prefix[w] == i;
                assert(ts[w] == i);
            } else {
                assert(last_in && ts.last() == i);
            }
        }
        assert forall|j: int, k: int| 0 <= j < k < ts.len() implies ts[j] < ts[k] by {
            if last_in {
                assert(ts == prefix.push((rs.len() - 1) as usize));
                if k < prefix.len() {
                    assert(prefix[j] == ts[j] && prefix[k] == ts[k]);
                } else {
                    assert(k == prefix.len() && ts[k] == rs.len() - 1);
                    assert(prefix[j] == ts[j]);
                    assert(prefix.contains(prefix[j]));
                }
            } else {
                assert(ts == prefix);
                assert(prefix[j] == ts[j] && prefix[k] == ts[k]);
            }
        }
    }
}

} // verus!
