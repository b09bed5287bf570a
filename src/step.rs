//! The era step: the rewards and evictions that close an era.

use crate::key::{EraId, PublicKey};
use crate::block::ProtocolVersion;
use vstd::prelude::*;

verus! {

/// What consensus reports at the end of an era.
#[derive(Debug)]
pub struct EraReport {
    /// Validators that equivocated in the era.
    pub equivocators: Vec<PublicKey>,
    /// The reward of each validator.
    pub rewards: Vec<(PublicKey, u64)>,
    /// Validators that were inactive in the era.
    pub inactive_validators: Vec<PublicKey>,
}

/// A reward to pay a validator.
#[derive(Clone, Copy, Debug, PartialEq, Eq, Structural)]
pub struct RewardItem {
    pub validator_id: PublicKey,
    pub value: u64,
}

/// A validator to remove from future validation.
#[derive(Clone, Copy, Debug, PartialEq, Eq, Structural)]
pub struct EvictItem {
    pub validator_id: PublicKey,
}

/// A validator whose stake is to be burned. This design never slashes.
#[derive(Clone, Copy, Debug, PartialEq, Eq, Structural)]
pub struct SlashItem {
    pub validator_id: PublicKey,
}

/// What the step processor is asked to do at the end of an era.
#[derive(Debug)]
pub struct StepRequest {
    pub protocol_version: ProtocolVersion,
    pub reward_items: Vec<RewardItem>,
    pub slash_items: Vec<SlashItem>,
    pub evict_items: Vec<EvictItem>,
    pub next_era_id: EraId,
    pub era_end_timestamp_millis: u64,
}

/// `s` with every repeated element dropped, first occurrences kept in order.
pub open spec fn dedup(s: Seq<PublicKey>) -> Seq<PublicKey>
    decreases s.len(),
{
    if s.len() == 0 {
        Seq::empty()
    } else if dedup(s.drop_last()).contains(s.last()) {
        dedup(s.drop_last())
    } else {
        dedup(s.drop_last()).push(s.last())
    }
}

/// No element occurs twice in `s`.
pub open spec fn no_duplicates(s: Seq<PublicKey>) -> bool {
    forall|i: int, j: int| 0 <= i < j < s.len() ==> s[i] != s[j]
}

/// The validators to evict: the inactive ones, then the equivocators, each
/// once.
pub open spec fn eviction_set(inactive: Seq<PublicKey>, equivocators: Seq<PublicKey>) -> Seq<
    PublicKey,
> {
    dedup(inactive + equivocators)
}

/// `v` occurs in `s` at exactly one position.
pub open spec fn occurs_once(s: Seq<PublicKey>, v: PublicKey) -> bool {
    exists|i: int|
        0 <= i < s.len() && s[i] == v && forall|j: int| 0 <= j < s.len() && #[trigger] s[j] == v ==> j == i
}

/// `dedup` keeps exactly the elements of its argument, each once.
pub proof fn lemma_dedup(s: Seq<PublicKey>)
    ensures
        no_duplicates(dedup(s)),
        forall|v: PublicKey| #[trigger] dedup(s).contains(v) <==> s.contains(v),
    decreases s.len(),
{
    if s.len() > 0 {
        let t = s.drop_last();
        lemma_dedup(t);
        assert forall|v: PublicKey| #[trigger] s.contains(v) <==> (t.contains(v) || v == s.last()) by {
            if s.contains(v) {
                let i = choose|i: int| 0 <= i < s.len() && s[i] == v;
                if i < t.len() {
                    assert(t[i] == v);
                }
            }
            if t.contains(v) {
                let i = choose|i: int| 0 <= i < t.len() && t[i] == v;
                assert(s[i] == v);
            }
            if v == s.last() {
                assert(s[s.len() - 1] == v);
            }
        }
        let d = dedup(t);
        if !d.contains(s.last()) {
            let e = d.push(s.last());
            assert forall|v: PublicKey| #[trigger] e.contains(v) <==> (d.contains(v) || v == s.last()) by {
                if e.contains(v) {
                    let i = choose|i: int| 0 <= i < e.len() && e[i] == v;
                    if i < d.len() {
                        assert(d[i] == v);
                    }
                }
                if d.contains(v) {
                    let i = choose|i: int| 0 <= i < d.len() && d[i] == v;
                    assert(e[i] == v);
                }
                if v == s.last() {
                    assert(e[e.len() - 1] == v);
                }
            }
            assert forall|i: int, j: int| 0 <= i < j < e.len() implies e[i] != e[j] by {
                if j == d.len() {
                    assert(d.contains(e[i]));
                }
            }
        }
    }
}

/// A validator that is both inactive and an equivocator is evicted exactly
/// once, as is every other validator of either set; no one else is evicted.
pub proof fn lemma_evicted_once(
    inactive: Seq<PublicKey>,
    equivocators: Seq<PublicKey>,
    v: PublicKey,
)
    ensures
        (inactive.contains(v) || equivocators.contains(v)) ==> occurs_once(
            eviction_set(inactive, equivocators),
            v,
        ),
        !(inactive.contains(v) || equivocators.contains(v)) ==> !eviction_set(
            inactive,
            equivocators,
        ).contains(v),
{
    let s = inactive + equivocators;
    lemma_dedup(s);
    if inactive.contains(v) {
        let i = choose|i: int| 0 <= i < inactive.len() && inactive[i] == v;
        assert(s[i] == v);
    }
    if equivocators.contains(v) {
        let i = choose|i: int| 0 <= i < equivocators.len() && equivocators[i] == v;
        assert(s[inactive.len() + i] == v);
    }
    if s.contains(v) {
        let d = dedup(s);
        assert(d.contains(v));
        let i = choose|i: int| 0 <= i < d.len() && d[i] == v;
        assert forall|j: int| 0 <= j < d.len() && d[j] == v implies j == i by {
            if j < i {
                assert(d[j] != d[i]);
            } else if i < j {
                assert(d[i] != d[j]);
            }
        }
        assert(occurs_once(d, v));
    }
}

/// Whether `v` occurs in `s`.
fn contains_validator(s: &Vec<PublicKey>, v: PublicKey) -> (r: bool)
    ensures
        r == s@.contains(v),
{
    let mut i: usize = 0;
    while i < s.len()
        invariant
            i <= s@.len(),
            forall|j: int| 0 <= j < i ==> s@[j] != v,
        decreases s@.len() - i,
    {
        if s[i] == v {
            assert(s@[i as int] == v);
            return true;
        }
        i = i + 1;
    }
    false
}

/// The reward items of an era report, in the report's order.
pub fn reward_items(report: &EraReport) -> (r: Vec<RewardItem>)
    ensures
        r@.len() == report.rewards@.len(),
        forall|i: int|
            0 <= i < r@.len() ==> #[trigger] r@[i] == (RewardItem {
                validator_id: report.rewards@[i].0,
                value: report.rewards@[i].1,
            }),
{
    let mut items: Vec<RewardItem> = Vec::new();
    let mut i: usize = 0;
    while i < report.rewards.len()
        invariant
            i <= report.rewards@.len(),
            items@.len() == i,
            forall|j: int|
                0 <= j < i ==> #[trigger] items@[j] == (RewardItem {
                    validator_id: report.rewards@[j].0,
                    value: report.rewards@[j].1,
                }),
        decreases report.rewards@.len() - i,
    {
        let (validator_id, value) = report.rewards[i];
        items.push(RewardItem { validator_id, value });
        i = i + 1;
    }
    items
}

/// The validators to evict at the end of an era: the inactive validators and
/// the equivocators, in that order, each once.
pub fn evicted_validators(report: &EraReport) -> (r: Vec<PublicKey>)
    ensures
        r@ == eviction_set(report.inactive_validators@, report.equivocators@),
{
    let ghost all = report.inactive_validators@ + report.equivocators@;
    let mut out: Vec<PublicKey> = Vec::new();
    let mut i: usize = 0;
    let n = report.inactive_validators.len();
    while i < n
        invariant
            n == report.inactive_validators@.len(),
            all == report.inactive_validators@ + report.equivocators@,
            i <= n,
            out@ == dedup(all.subrange(0, i as int)),
        decreases n - i,
    {
        let v = report.inactive_validators[i];
        proof {
            assert(all.subrange(0, i + 1).drop_last() =~= all.subrange(0, i as int));
            assert(all.subrange(0, i + 1).last() == v);
        }
        if !contains_validator(&out, v) {
            out.push(v);
        }
        i = i + 1;
    }
    let mut j: usize = 0;
    while j < report.equivocators.len()
        invariant
            n == report.inactive_validators@.len(),
            all == report.inactive_validators@ + report.equivocators@,
            j <= report.equivocators@.len(),
            out@ == dedup(all.subrange(0, n + j)),
        decreases report.equivocators@.len() - j,
    {
        let v = report.equivocators[j];
        proof {
            assert(all.subrange(0, n + j + 1).drop_last() =~= all.subrange(0, n + j));
            assert(all.subrange(0, n + j + 1).last() == v);
        }
        if !contains_validator(&out, v) {
            out.push(v);
        }
        j = j + 1;
    }
    assert(all.subrange(0, all.len() as int) =~= all);
    out
}

/// The eviction items of an era report: each evicted validator once.
pub fn evict_items(report: &EraReport) -> (r: Vec<EvictItem>)
    ensures
        r@.len() == eviction_set(report.inactive_validators@, report.equivocators@).len(),
        forall|i: int|
            0 <= i < r@.len() ==> #[trigger] r@[i].validator_id == eviction_set(
                report.inactive_validators@,
                report.equivocators@,
            )[i],
{
    let validators = evicted_validators(report);
    let mut items: Vec<EvictItem> = Vec::new();
    let mut i: usize = 0;
    while i < validators.len()
        invariant
            i <= validators@.len(),
            items@.len() == i,
            forall|j: int| 0 <= j < i ==> #[trigger] items@[j].validator_id == validators@[j],
        decreases validators@.len() - i,
    {
        items.push(EvictItem { validator_id: validators[i] });
        i = i + 1;
    }
    items
}

/// The step request for an era report: its rewards, its evictions, and no
/// slashing.
pub fn step_request(
    protocol_version: ProtocolVersion,
    report: &EraReport,
    era_end_timestamp_millis: u64,
    next_era_id: EraId,
) -> (r: StepRequest)
    ensures
        r.protocol_version == protocol_version,
        r.slash_items@.len() == 0,
        r.next_era_id == next_era_id,
        r.era_end_timestamp_millis == era_end_timestamp_millis,
        r.reward_items@.len() == report.rewards@.len(),
        forall|i: int|
            0 <= i < r.reward_items@.len() ==> #[trigger] r.reward_items@[i] == (RewardItem {
                validator_id: report.rewards@[i].0,
                value: report.rewards@[i].1,
            }),
        r.evict_items@.len() == eviction_set(report.inactive_validators@, report.equivocators@).len(),
        forall|i: int|
            0 <= i < r.evict_items@.len() ==> #[trigger] r.evict_items@[i].validator_id
                == eviction_set(report.inactive_validators@, report.equivocators@)[i],
{
    StepRequest {
        protocol_version,
        reward_items: reward_items(report),
        slash_items: Vec::new(),
        evict_items: evict_items(report),
        next_era_id,
        era_end_timestamp_millis,
    }
}

} // verus!
