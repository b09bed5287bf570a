//! Read-only queries of global state at a given root.

use crate::effects::lookup;
use crate::entries::{keys_unique, lemma_entry_in_map};
use crate::key::{has_prefix, tag_of, Key, KeyTag};
use crate::store::{GlobalState, StateRoot};
use crate::value::StoredValue;
use vstd::prelude::*;

verus! {

/// Why a query found no answer.
#[derive(Clone, Copy, Debug, PartialEq, Eq, Structural)]
pub enum QueryError {
    /// The store holds no snapshot at this root.
    RootNotFound(StateRoot),
    /// The key holds no record at the root.
    ValueNotFound(Key),
    /// The record under the key is not of the kind the query reads.
    UnexpectedValue(Key),
}

/// The record under `key` at `root`.
pub fn get_item(store: &GlobalState, root: StateRoot, key: Key) -> (r: Result<StoredValue, QueryError>)
    requires
        store.wf(),
    ensures
        root.0 >= store@.len() ==> r == Err::<StoredValue, QueryError>(QueryError::RootNotFound(root)),
        root.0 < store@.len() ==> r == match lookup(store@[root.0 as int], key) {
            Some(v) => Ok::<StoredValue, QueryError>(v),
            None => Err(QueryError::ValueNotFound(key)),
        },
{
    match store.checkout(root) {
        Some(snapshot) => match snapshot.get(&key) {
            Some(v) => Ok(v),
            None => Err(QueryError::ValueNotFound(key)),
        },
        None => Err(QueryError::RootNotFound(root)),
    }
}

/// The balance held by `purse` at `root`: the number under its balance key.
pub fn get_balance(store: &GlobalState, root: StateRoot, purse: u64) -> (r: Result<u64, QueryError>)
    requires
        store.wf(),
    ensures
        root.0 >= store@.len() ==> r == Err::<u64, QueryError>(QueryError::RootNotFound(root)),
        root.0 < store@.len() ==> r == match lookup(store@[root.0 as int], Key::Balance(purse)) {
            Some(StoredValue::Number(n)) => Ok::<u64, QueryError>(n),
            Some(StoredValue::Record(_)) => Err(QueryError::UnexpectedValue(Key::Balance(purse))),
            None => Err(QueryError::ValueNotFound(Key::Balance(purse))),
        },
{
    match get_item(store, root, Key::Balance(purse)) {
        Ok(StoredValue::Number(n)) => Ok(n),
        Ok(StoredValue::Record(_)) => Err(QueryError::UnexpectedValue(Key::Balance(purse))),
        Err(e) => Err(e),
    }
}

/// Every record at `root` whose key has tag `tag`, each once.
pub fn get_all_items_by_tag(store: &GlobalState, root: StateRoot, tag: KeyTag) -> (r: Result<
    Vec<(Key, StoredValue)>,
    QueryError,
>)
    requires
        store.wf(),
    ensures
        root.0 >= store@.len() ==> r == Err::<Vec<(Key, StoredValue)>, QueryError>(
            QueryError::RootNotFound(root),
        ),
        root.0 < store@.len() ==> r is Ok,
        r matches Ok(items) ==> {
            &&& keys_unique(items@)
            &&& forall|i: int|
                0 <= i < items@.len() ==> tag_of(#[trigger] items@[i].0) == tag && lookup(
                    store@[root.0 as int],
                    items@[i].0,
                ) == Some(items@[i].1)
            &&& forall|k: Key|
                #[trigger] store@[root.0 as int].contains_key(k) && tag_of(k) == tag ==> exists|i: int|
                    0 <= i < items@.len() && items@[i].0 == k
        },
{
    let snapshot = match store.checkout(root) {
        Some(snapshot) => snapshot,
        None => return Err(QueryError::RootNotFound(root)),
    };
    let ghost es = snapshot.entries@;
    let ghost mut idx: Seq<int> = Seq::empty();
    let mut items: Vec<(Key, StoredValue)> = Vec::new();
    let mut i: usize = 0;
    while i < snapshot.entries.len()
        invariant
            snapshot.wf(),
            es == snapshot.entries@,
            i <= es.len(),
            idx.len() == items@.len(),
            forall|a: int| 0 <= a < idx.len() ==> 0 <= #[trigger] idx[a] < i && items@[a] == es[idx[a]],
            forall|a: int, b: int| 0 <= a < b < idx.len() ==> #[trigger] idx[a] < #[trigger] idx[b],
            forall|a: int| 0 <= a < items@.len() ==> tag_of(#[trigger] items@[a].0) == tag,
            forall|j: int| 0 <= j < i && tag_of(#[trigger] es[j].0) == tag ==> exists|a: int|
                0 <= a < idx.len() && idx[a] == j,
        decreases es.len() - i,
    {
        let (k, v) = snapshot.entries[i];
        if k.tag() == tag {
            items.push((k, v));
            proof {
                let old_idx = idx;
                idx = idx.push(i as int);
                assert forall|j: int| 0 <= j < i + 1 && tag_of(#[trigger] es[j].0) == tag implies exists|a: int|
                    0 <= a < idx.len() && idx[a] == j by {
                    if j < i {
                        let a = choose|a: int| 0 <= a < old_idx.len() && old_idx[a] == j;
                        assert(idx[a] == j);
                    } else {
                        assert(idx[old_idx.len() as int] == j);
                    }
                }
            }
        }
        i = i + 1;
    }
    proof {
        assert forall|a: int, b: int| 0 <= a < b < items@.len() implies items@[a].0 != items@[b].0 by {
            assert(idx[a] < idx[b]);
            assert(es[idx[a]].0 != es[idx[b]].0);
        }
        assert forall|a: int| 0 <= a < items@.len() implies tag_of(#[trigger] items@[a].0) == tag && lookup(
            snapshot@,
            items@[a].0,
        ) == Some(items@[a].1) by {
            lemma_entry_in_map(es, idx[a]);
        }
        assert forall|k: Key| #[trigger] snapshot@.contains_key(k) && tag_of(k) == tag implies exists|a: int|
            0 <= a < items@.len() && items@[a].0 == k by {
            let j = choose|j: int| 0 <= j < es.len() && es[j].0 == k;
            assert(tag_of(es[j].0) == tag);
            let a = choose|a: int| 0 <= a < idx.len() && idx[a] == j;
            assert(items@[a] == es[j]);
        }
    }
    Ok(items)
}

/// Every record at `root` whose key's bytes start with `prefix`, each once.
pub fn get_items_by_prefix(store: &GlobalState, root: StateRoot, prefix: &[u8]) -> (r: Result<
    Vec<(Key, StoredValue)>,
    QueryError,
>)
    requires
        store.wf(),
    ensures
        root.0 >= store@.len() ==> r == Err::<Vec<(Key, StoredValue)>, QueryError>(
            QueryError::RootNotFound(root),
        ),
        root.0 < store@.len() ==> r is Ok,
        r matches Ok(items) ==> {
            &&& keys_unique(items@)
            &&& forall|i: int|
                0 <= i < items@.len() ==> has_prefix(#[trigger] items@[i].0, prefix@) && lookup(
                    store@[root.0 as int],
                    items@[i].0,
                ) == Some(items@[i].1)
            &&& forall|k: Key|
                #[trigger] store@[root.0 as int].contains_key(k) && has_prefix(k, prefix@) ==> exists|i: int|
                    0 <= i < items@.len() && items@[i].0 == k
        },
{
    let snapshot = match store.checkout(root) {
        Some(snapshot) => snapshot,
        None => return Err(QueryError::RootNotFound(root)),
    };
    let ghost es = snapshot.entries@;
    let ghost mut idx: Seq<int> = Seq::empty();
    let mut items: Vec<(Key, StoredValue)> = Vec::new();
    let mut i: usize = 0;
    while i < snapshot.entries.len()
        invariant
            snapshot.wf(),
            es == snapshot.entries@,
            i <= es.len(),
            idx.len() == items@.len(),
            forall|a: int| 0 <= a < idx.len() ==> 0 <= #[trigger] idx[a] < i && items@[a] == es[idx[a]],
            forall|a: int, b: int| 0 <= a < b < idx.len() ==> #[trigger] idx[a] < #[trigger] idx[b],
            forall|a: int| 0 <= a < items@.len() ==> has_prefix(#[trigger] items@[a].0, prefix@),
            forall|j: int| 0 <= j < i && has_prefix(#[trigger] es[j].0, prefix@) ==> exists|a: int|
                0 <= a < idx.len() && idx[a] == j,
        decreases es.len() - i,
    {
        let (k, v) = snapshot.entries[i];
        if k.has_prefix(prefix) {
            items.push((k, v));
            proof {
                let old_idx = idx;
                idx = idx.push(i as int);
                assert forall|j: int| 0 <= j < i + 1 && has_prefix(#[trigger] es[j].0, prefix@) implies exists|a: int|
                    0 <= a < idx.len() && idx[a] == j by {
                    if j < i {
                        let a = choose|a: int| 0 <= a < old_idx.len() && old_idx[a] == j;
                        assert(idx[a] == j);
                    } else {
                        assert(idx[old_idx.len() as int] == j);
                    }
                }
            }
        }
        i = i + 1;
    }
    proof {
        assert forall|a: int, b: int| 0 <= a < b < items@.len() implies items@[a].0 != items@[b].0 by {
            assert(idx[a] < idx[b]);
            assert(es[idx[a]].0 != es[idx[b]].0);
        }
        assert forall|a: int| 0 <= a < items@.len() implies has_prefix(#[trigger] items@[a].0, prefix@) && lookup(
            snapshot@,
            items@[a].0,
        ) == Some(items@[a].1) by {
            lemma_entry_in_map(es, idx[a]);
        }
        assert forall|k: Key| #[trigger] snapshot@.contains_key(k) && has_prefix(k, prefix@) implies exists|a: int|
            0 <= a < items@.len() && items@[a].0 == k by {
            let j = choose|j: int| 0 <= j < es.len() && es[j].0 == k;
            assert(has_prefix(es[j].0, prefix@));
            let a = choose|a: int| 0 <= a < idx.len() && idx[a] == j;
            assert(items@[a] == es[j]);
        }
    }
    Ok(items)
}

} // verus!
