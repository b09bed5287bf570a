use casper_core::block::ProtocolVersion;
use casper_core::key::{EraId, PublicKey};
use casper_core::step::{evict_items, evicted_validators, reward_items, step_request, EraReport};

fn keys(ids: &[u64]) -> Vec<PublicKey> {
    ids.iter().map(|i| PublicKey(*i)).collect()
}

#[test]
fn validator_in_both_sets_is_evicted_once() {
    let report = EraReport {
        equivocators: keys(&[5, 1, 9]),
        rewards: vec![],
        inactive_validators: keys(&[1, 2, 5]),
    };
    assert_eq!(evicted_validators(&report), keys(&[1, 2, 5, 9]));
    let items: Vec<u64> = evict_items(&report).iter().map(|i| i.validator_id.0).collect();
    assert_eq!(items, vec![1, 2, 5, 9]);
}

#[test]
fn eviction_of_disjoint_and_empty_sets() {
    let report = EraReport { equivocators: keys(&[3]), rewards: vec![], inactive_validators: keys(&[4]) };
    assert_eq!(evicted_validators(&report), keys(&[4, 3]));
    let empty = EraReport { equivocators: vec![], rewards: vec![], inactive_validators: vec![] };
    assert!(evicted_validators(&empty).is_empty());
    let repeated = EraReport { equivocators: keys(&[7, 7]), rewards: vec![], inactive_validators: vec![] };
    assert_eq!(evicted_validators(&repeated), keys(&[7]));
}

#[test]
fn step_request_carries_rewards_and_no_slashing() {
    let report = EraReport {
        equivocators: keys(&[2]),
        rewards: vec![(PublicKey(1), 10), (PublicKey(2), 20)],
        inactive_validators: keys(&[2]),
    };
    let pv = ProtocolVersion { major: 2, minor: 1, patch: 0 };
    let items: Vec<(u64, u64)> = reward_items(&report).iter().map(|i| (i.validator_id.0, i.value)).collect();
    assert_eq!(items, vec![(1, 10), (2, 20)]);
    let request = step_request(pv, &report, 99, EraId(4));
    assert_eq!(request.protocol_version, pv);
    assert_eq!(request.next_era_id, EraId(4));
    assert_eq!(request.era_end_timestamp_millis, 99);
    assert!(request.slash_items.is_empty());
    assert_eq!(request.evict_items.len(), 1);
    assert_eq!(request.reward_items.len(), 2);
}
