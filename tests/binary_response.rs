use casper_core::binary_response::{BinaryResponse, BinaryResponseAndRequest};
use casper_core::block::ProtocolVersion;
use casper_core::context_map::{compute_prefix, ContextMap};
use casper_core::data_access_layer::{BlockStore, DataAccessLayer};
use casper_core::effects::Effects;
use casper_core::key::Key;
use casper_core::store::{GlobalState, StateRoot};
use casper_core::value::{StoredValue, Transform};
use const_fnv1a_hash::fnv1a_hash_str_64;

const PV: ProtocolVersion = ProtocolVersion { major: 2, minor: 0, patch: 0 };

#[test]
fn response_keeps_the_request() {
    let response = BinaryResponse::from_raw_bytes(3, vec![1, 2, 3], PV);
    let both = BinaryResponseAndRequest::new(response, &[9, 8], 17);
    assert!(both.is_success());
    assert_eq!(both.error_code(), 0);
    assert_eq!(both.original_request_bytes(), &[9, 8]);
    assert_eq!(both.original_request_id(), 17);
    assert_eq!(both.response().payload(), &[1, 2, 3]);
    assert_eq!(both.response().header.returned_data_type_tag, Some(3));
}

#[test]
fn error_response_is_not_a_success() {
    let both = BinaryResponseAndRequest::new(BinaryResponse::new_error(5, PV), &[], 0);
    assert!(!both.is_success());
    assert_eq!(both.error_code(), 5);
    assert!(both.original_request_bytes().is_empty());
    let empty = BinaryResponse::new_empty(PV);
    assert!(empty.is_success());
    assert!(empty.payload().is_empty());
}

#[test]
fn test_compute_prefix() {
    let prefix = compute_prefix("hello");
    assert_eq!(prefix.as_slice(), &[11, 189, 170, 128, 70, 216, 48, 164]);
    let back = u64::from_le_bytes(prefix);
    assert_eq!(fnv1a_hash_str_64("hello"), back);
}

#[test]
fn prefixes_differ_by_name() {
    assert_ne!(compute_prefix("test"), compute_prefix("test2"));
    assert_eq!(u64::from_le_bytes(compute_prefix("")), 0xcbf29ce484222325);
}

#[test]
fn context_map_is_named() {
    let _map: ContextMap<u64, u64> = ContextMap::new("test");
}

#[test]
fn data_access_layer_forwards_to_global_state() {
    let mut dal = DataAccessLayer {
        block_store: BlockStore::new(),
        state: GlobalState::new(),
        max_query_depth: 5,
        enable_entity: false,
    };
    assert_eq!(dal.state().snapshots.len(), 1);
    let mut e = Effects::new();
    e.insert(Key::Account(1), Transform::Write(StoredValue::Number(4)));
    let root = dal.commit_effects(StateRoot(0), &e).unwrap();
    let tc = dal.tracking_copy(root).unwrap();
    assert_eq!(tc.read(&Key::Account(1)), Some(StoredValue::Number(4)));
    assert!(dal.tracking_copy(StateRoot(7)).is_none());
    assert_eq!(dal.checkout(root).unwrap().get(&Key::Account(1)), Some(StoredValue::Number(4)));
}
