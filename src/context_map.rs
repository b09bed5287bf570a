//! Contract-side maps: a named keyspace in a contract's context.

use crate::key::le_bytes;
use core::marker::PhantomData;
use vstd::prelude::*;

verus! {

/// The 64-bit FNV-1a hash of the UTF-8 bytes of a string.
pub uninterp spec fn fnv1a_64_of(s: Seq<char>) -> u64;

/// Relies on `const_fnv1a_hash::fnv1a_hash_str_64`: the 64-bit FNV-1a hash of
/// the string's bytes, which depends on the string alone.
#[verifier::external_body]
fn fnv1a_hash_str_64(input: &str) -> (r: u64)
    ensures
        r == fnv1a_64_of(input@),
{
    const_fnv1a_hash::fnv1a_hash_str_64(input)
}

/// The keyspace prefix of `input`: the little-endian bytes of its FNV-1a hash.
pub fn compute_prefix(input: &str) -> (r: [u8; 8])
    ensures
        r@ == le_bytes(fnv1a_64_of(input@)),
{
    let h = fnv1a_hash_str_64(input);
    let r = [
        h as u8,
        (h >> 8u64) as u8,
        (h >> 16u64) as u8,
        (h >> 24u64) as u8,
        (h >> 32u64) as u8,
        (h >> 40u64) as u8,
        (h >> 48u64) as u8,
        (h >> 56u64) as u8,
    ];
    assert(r@ =~= le_bytes(h));
    r
}

/// A map from `K` to `V` kept in a contract's context under a name.
#[derive(Debug)]
pub struct ContextMap<K, V> {
    name: String,
    marker: PhantomData<(K, V)>,
}

impl<K, V> ContextMap<K, V> {
    /// The map's name.
    pub closed spec fn name_view(&self) -> Seq<char> {
        self.name@
    }

    /// A map named `name`.
    pub fn new(name: &str) -> (r: ContextMap<K, V>)
        ensures
            r.name_view() == name@,
    {
        ContextMap { name: name.to_owned(), marker: PhantomData }
    }
}

} // verus!
