use casper_core::effects::Effects;
use casper_core::key::{EraId, Key};
use casper_core::store::{GlobalState, GlobalStateError, PurgeResult, StateRoot};
use casper_core::tracking_copy::TrackingCopy;
use casper_core::value::{apply_transform, compose, StoredValue, Transform, TransformError};

fn effects(entries: &[(Key, Transform)]) -> Effects {
    let mut e = Effects::new();
    for (k, t) in entries {
        e.insert(*k, *t);
    }
    e
}

fn seeded_store() -> (GlobalState, StateRoot) {
    let mut store = GlobalState::new();
    let root = store.empty_root();
    let seed = effects(&[
        (Key::Account(1), Transform::Write(StoredValue::Number(10))),
        (Key::Hash(2), Transform::Write(StoredValue::Record(7))),
        (Key::EraInfo(EraId(0)), Transform::Write(StoredValue::Record(100))),
    ]);
    let root = store.commit_effects(root, &seed).unwrap();
    (store, root)
}

#[test]
fn transforms_apply_to_records() {
    assert_eq!(
        apply_transform(Transform::Write(StoredValue::Number(4)), None),
        Ok(Some(StoredValue::Number(4)))
    );
    assert_eq!(apply_transform(Transform::Prune, Some(StoredValue::Number(4))), Ok(None));
    assert_eq!(
        apply_transform(Transform::AddUInt64(3), Some(StoredValue::Number(4))),
        Ok(Some(StoredValue::Number(7)))
    );
    assert_eq!(
        apply_transform(Transform::AddUInt64(2), Some(StoredValue::Number(u64::MAX))),
        Ok(Some(StoredValue::Number(1)))
    );
    assert_eq!(
        apply_transform(Transform::AddUInt64(1), Some(StoredValue::Record(4))),
        Err(TransformError::TypeMismatch)
    );
    assert_eq!(apply_transform(Transform::AddUInt64(1), None), Err(TransformError::KeyNotFound));
}

#[test]
fn transforms_compose() {
    assert_eq!(
        compose(Transform::AddUInt64(2), Transform::AddUInt64(3)),
        Some(Transform::AddUInt64(5))
    );
    assert_eq!(
        compose(Transform::Write(StoredValue::Number(2)), Transform::AddUInt64(3)),
        Some(Transform::Write(StoredValue::Number(5)))
    );
    assert_eq!(compose(Transform::AddUInt64(2), Transform::Prune), Some(Transform::Prune));
    assert_eq!(
        compose(Transform::Prune, Transform::Write(StoredValue::Record(1))),
        Some(Transform::Write(StoredValue::Record(1)))
    );
    assert_eq!(compose(Transform::Prune, Transform::AddUInt64(1)), None);
    assert_eq!(compose(Transform::Write(StoredValue::Record(1)), Transform::AddUInt64(1)), None);
}

#[test]
fn effects_accumulate_per_key() {
    let mut e = Effects::new();
    assert!(e.is_empty());
    assert!(e.add_transform(Key::Account(1), Transform::AddUInt64(1)));
    assert!(e.add_transform(Key::Account(1), Transform::AddUInt64(2)));
    assert_eq!(e.get(&Key::Account(1)), Some(Transform::AddUInt64(3)));
    assert!(e.add_transform(Key::Account(2), Transform::Prune));
    assert!(!e.add_transform(Key::Account(2), Transform::AddUInt64(2)));
    assert_eq!(e.get(&Key::Account(2)), Some(Transform::Prune));
    e.insert(Key::Account(1), Transform::Write(StoredValue::Number(9)));
    assert_eq!(e.get(&Key::Account(1)), Some(Transform::Write(StoredValue::Number(9))));
    assert_eq!(e.len(), 2);
    assert_eq!(e.get(&Key::Account(3)), None);
}

#[test]
fn commit_then_read_returns_what_the_effects_specify() {
    let (mut store, root) = seeded_store();
    let e = effects(&[
        (Key::Account(1), Transform::AddUInt64(5)),
        (Key::Hash(2), Transform::Prune),
        (Key::URef(3), Transform::Write(StoredValue::Record(42))),
    ]);
    let new_root = store.commit_effects(root, &e).unwrap();
    assert_ne!(new_root, root);
    assert_eq!(store.read(new_root, &Key::Account(1)), Ok(Some(StoredValue::Number(15))));
    assert_eq!(store.read(new_root, &Key::Hash(2)), Ok(None));
    assert_eq!(store.read(new_root, &Key::URef(3)), Ok(Some(StoredValue::Record(42))));
    assert_eq!(
        store.read(new_root, &Key::EraInfo(EraId(0))),
        Ok(Some(StoredValue::Record(100)))
    );
    // The old root is still readable and unchanged.
    assert_eq!(store.read(root, &Key::Account(1)), Ok(Some(StoredValue::Number(10))));
    assert_eq!(store.read(root, &Key::Hash(2)), Ok(Some(StoredValue::Record(7))));
}

#[test]
fn empty_commit_keeps_the_root() {
    let (mut store, root) = seeded_store();
    let count = store.snapshots.len();
    assert_eq!(store.commit_effects(root, &Effects::new()), Ok(root));
    assert_eq!(store.snapshots.len(), count);
    let empty = store.empty_root();
    assert_eq!(store.commit_effects(empty, &Effects::new()), Ok(empty));
}

#[test]
fn repeated_commit_is_idempotent() {
    let (mut store, root) = seeded_store();
    let e = effects(&[(Key::Account(1), Transform::AddUInt64(1))]);
    let first = store.commit_effects(root, &e).unwrap();
    let count = store.snapshots.len();
    let second = store.commit_effects(root, &e).unwrap();
    assert_eq!(first, second);
    assert_eq!(store.snapshots.len(), count);
    assert_eq!(store.effect_commits, 3);
}

#[test]
fn commit_reports_unknown_roots_and_failed_transforms() {
    let (mut store, root) = seeded_store();
    let missing = StateRoot(99);
    assert_eq!(
        store.commit_effects(missing, &Effects::new()),
        Err(GlobalStateError::RootNotFound(missing))
    );
    assert_eq!(store.read(missing, &Key::Account(1)), Err(GlobalStateError::RootNotFound(missing)));
    let count = store.snapshots.len();
    let e = effects(&[
        (Key::Account(1), Transform::AddUInt64(1)),
        (Key::Hash(2), Transform::AddUInt64(1)),
        (Key::Account(9), Transform::AddUInt64(1)),
    ]);
    assert_eq!(
        store.commit_effects(root, &e),
        Err(GlobalStateError::Transform { key: Key::Hash(2), error: TransformError::TypeMismatch })
    );
    let e = effects(&[(Key::Account(9), Transform::AddUInt64(1))]);
    assert_eq!(
        store.commit_effects(root, &e),
        Err(GlobalStateError::Transform { key: Key::Account(9), error: TransformError::KeyNotFound })
    );
    assert_eq!(store.snapshots.len(), count);
}

#[test]
fn purge_removes_present_keys_only() {
    let (mut store, root) = seeded_store();
    assert_eq!(store.purge(StateRoot(99), &vec![Key::Account(1)]), PurgeResult::RootNotFound);
    assert_eq!(
        store.purge(root, &vec![Key::Account(1), Key::Account(5)]),
        PurgeResult::DoesNotExist
    );
    assert_eq!(store.read(root, &Key::Account(1)), Ok(Some(StoredValue::Number(10))));
    let post = match store.purge(root, &vec![Key::EraInfo(EraId(0)), Key::Hash(2)]) {
        PurgeResult::Success { post_state_hash } => post_state_hash,
        other => panic!("unexpected purge result {:?}", other),
    };
    assert_eq!(store.read(post, &Key::EraInfo(EraId(0))), Ok(None));
    assert_eq!(store.read(post, &Key::Hash(2)), Ok(None));
    assert_eq!(store.read(post, &Key::Account(1)), Ok(Some(StoredValue::Number(10))));
    assert_eq!(store.read(root, &Key::Hash(2)), Ok(Some(StoredValue::Record(7))));
    assert_eq!(store.effect_commits, 1);
}

#[test]
fn tracking_copy_reads_its_own_writes() {
    let (store, root) = seeded_store();
    assert!(TrackingCopy::checkout(&store, StateRoot(99)).is_none());
    let mut tc = TrackingCopy::checkout(&store, root).unwrap();
    assert_eq!(tc.read(&Key::Account(1)), Some(StoredValue::Number(10)));
    tc.write(Key::Account(4), StoredValue::Number(1));
    assert_eq!(tc.read(&Key::Account(4)), Some(StoredValue::Number(1)));
    assert_eq!(tc.add(Key::Account(4), 2), Ok(()));
    assert_eq!(tc.add(Key::Account(1), 5), Ok(()));
    assert_eq!(tc.read(&Key::Account(4)), Some(StoredValue::Number(3)));
    assert_eq!(tc.read(&Key::Account(1)), Some(StoredValue::Number(15)));
    assert_eq!(tc.add(Key::Hash(2), 1), Err(TransformError::TypeMismatch));
    assert_eq!(tc.add(Key::Account(8), 1), Err(TransformError::KeyNotFound));
    tc.prune(Key::Hash(2));
    assert_eq!(tc.read(&Key::Hash(2)), None);
    assert_eq!(tc.effects.get(&Key::Account(1)), Some(Transform::AddUInt64(5)));
    // Nothing reached the store.
    assert_eq!(store.read(root, &Key::Account(1)), Ok(Some(StoredValue::Number(10))));
    assert_eq!(store.read(root, &Key::Account(4)), Ok(None));
}

#[test]
fn fork_and_merge_fold_child_effects_into_parent() {
    let (store, root) = seeded_store();
    let mut parent = TrackingCopy::checkout(&store, root).unwrap();
    parent.write(Key::Account(4), StoredValue::Number(1));
    let mut child = parent.fork();
    assert_eq!(child.read(&Key::Account(4)), Some(StoredValue::Number(1)));
    assert_eq!(child.add(Key::Account(4), 4), Ok(()));
    child.prune(Key::EraInfo(EraId(0)));
    // The parent does not see the child's writes until they are merged.
    assert_eq!(parent.read(&Key::Account(4)), Some(StoredValue::Number(1)));
    assert_eq!(parent.merge(&child.effects), Ok(()));
    assert_eq!(parent.read(&Key::Account(4)), Some(StoredValue::Number(5)));
    assert_eq!(parent.read(&Key::EraInfo(EraId(0))), None);
    assert_eq!(parent.effects.get(&Key::Account(4)), Some(Transform::Write(StoredValue::Number(5))));
}

#[test]
fn failed_merge_leaves_the_parent_as_it_was() {
    let (store, root) = seeded_store();
    let mut parent = TrackingCopy::checkout(&store, root).unwrap();
    let child = effects(&[
        (Key::Account(1), Transform::AddUInt64(1)),
        (Key::Hash(2), Transform::AddUInt64(1)),
    ]);
    assert_eq!(parent.merge(&child), Err((Key::Hash(2), TransformError::TypeMismatch)));
    assert_eq!(parent.read(&Key::Account(1)), Some(StoredValue::Number(10)));
    assert!(parent.effects.is_empty());
}

#[test]
fn store_and_effects_check_their_invariants() {
    let (mut store, _) = seeded_store();
    assert!(store.is_well_formed());
    let e = effects(&[(Key::Account(1), Transform::Prune)]);
    assert!(e.has_unique_keys());
    let doubled = Effects {
        entries: vec![(Key::Account(1), Transform::Prune), (Key::Account(1), Transform::Prune)],
    };
    assert!(!doubled.has_unique_keys());
    let copy = store.snapshots[1].copy();
    store.snapshots.push(copy);
    assert!(!store.is_well_formed());
    store.snapshots.pop();
    store.snapshots.swap(0, 1);
    assert!(!store.is_well_formed());
}
