//! Stored values and the operations that effects apply to them.

use vstd::prelude::*;

verus! {

/// A record stored under a key.
#[derive(Clone, Copy, Debug, PartialEq, Eq, Structural)]
pub enum StoredValue {
    /// An unsigned number, which `AddUInt64` accumulates into.
    Number(u64),
    /// Any other record, held by the 64-bit tag of its contents.
    Record(u64),
}

/// One operation of an effect set on one key.
#[derive(Clone, Copy, Debug, PartialEq, Eq, Structural)]
pub enum Transform {
    /// Store this value, whatever was there.
    Write(StoredValue),
    /// Add to the number stored there, wrapping at 2^64.
    AddUInt64(u64),
    /// Remove the record.
    Prune,
}

/// Why a transform could not be applied to what a key holds.
#[derive(Clone, Copy, Debug, PartialEq, Eq, Structural)]
pub enum TransformError {
    /// An addition met a record that is not a number.
    TypeMismatch,
    /// An addition met a key that holds nothing.
    KeyNotFound,
}

/// `a + b` modulo 2^64.
pub open spec fn add_wrapping(a: u64, b: u64) -> u64 {
    if a + b > u64::MAX {
        (a + b - 0x1_0000_0000_0000_0000) as u64
    } else {
        (a + b) as u64
    }
}

/// What a key holds after `t` is applied to `current`.
pub open spec fn apply_spec(t: Transform, current: Option<StoredValue>) -> Result<
    Option<StoredValue>,
    TransformError,
> {
    match t {
        Transform::Write(v) => Ok(Some(v)),
        Transform::Prune => Ok(None),
        Transform::AddUInt64(n) => match current {
            Some(StoredValue::Number(a)) => Ok(Some(StoredValue::Number(add_wrapping(a, n)))),
            Some(StoredValue::Record(_)) => Err(TransformError::TypeMismatch),
            None => Err(TransformError::KeyNotFound),
        },
    }
}

/// The single transform that does what `first` and then `second` do, where
/// there is one: a write or prune supersedes, additions accumulate, an
/// addition after a written number writes the sum; an addition after a prune
/// or after a non-numeric write has none.
pub open spec fn compose_spec(first: Transform, second: Transform) -> Option<Transform> {
    match second {
        Transform::AddUInt64(n) => match first {
            Transform::AddUInt64(m) => Some(Transform::AddUInt64(add_wrapping(m, n))),
            Transform::Write(StoredValue::Number(a)) => Some(
                Transform::Write(StoredValue::Number(add_wrapping(a, n))),
            ),
            _ => None,
        },
        _ => Some(second),
    }
}

/// Applies `t` to what a key holds.
pub fn apply_transform(t: Transform, current: Option<StoredValue>) -> (r: Result<
    Option<StoredValue>,
    TransformError,
>)
    ensures
        r == apply_spec(t, current),
{
    match t {
        Transform::Write(v) => Ok(Some(v)),
        Transform::Prune => Ok(None),
        Transform::AddUInt64(n) => match current {
            Some(StoredValue::Number(a)) => Ok(Some(StoredValue::Number(a.wrapping_add(n)))),
            Some(StoredValue::Record(_)) => Err(TransformError::TypeMismatch),
            None => Err(TransformError::KeyNotFound),
        },
    }
}

/// Composes two transforms on one key, `first` before `second`.
pub fn compose(first: Transform, second: Transform) -> (r: Option<Transform>)
    ensures
        r == compose_spec(first, second),
{
    match second {
        Transform::AddUInt64(n) => match first {
            Transform::AddUInt64(m) => Some(Transform::AddUInt64(m.wrapping_add(n))),
            Transform::Write(StoredValue::Number(a)) => Some(
                Transform::Write(StoredValue::Number(a.wrapping_add(n))),
            ),
            _ => None,
        },
        _ => Some(second),
    }
}

/// A composed transform does to any record what its two parts do in turn,
/// provided the first part applies.
pub proof fn lemma_compose_applies_in_turn(
    first: Transform,
    second: Transform,
    current: Option<StoredValue>,
)
    requires
        compose_spec(first, second) is Some,
        apply_spec(first, current) is Ok,
    ensures
        apply_spec(compose_spec(first, second)->0, current) == apply_spec(
            second,
            apply_spec(first, current)->Ok_0,
        ),
{
}

/// Two transforms that apply in turn to some record compose.
pub proof fn lemma_composable(first: Transform, second: Transform, current: Option<StoredValue>)
    requires
        apply_spec(first, current) is Ok,
        apply_spec(second, apply_spec(first, current)->Ok_0) is Ok,
    ensures
        compose_spec(first, second) is Some,
{
}

/// Composition is associative wherever both groupings compose.
pub proof fn lemma_compose_associative(a: Transform, b: Transform, c: Transform)
    requires
        compose_spec(a, b) is Some,
        compose_spec(b, c) is Some,
        compose_spec(compose_spec(a, b)->0, c) is Some,
        compose_spec(a, compose_spec(b, c)->0) is Some,
    ensures
        compose_spec(compose_spec(a, b)->0, c) == compose_spec(a, compose_spec(b, c)->0),
{
}

} // verus!
