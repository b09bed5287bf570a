//! Addresses of records in global state.

use vstd::prelude::*;

verus! {

/// An era number.
#[derive(Clone, Copy, Debug, PartialEq, Eq, Structural, Hash)]
pub struct EraId(pub u64);

impl EraId {
    /// Creates an era id from its number.
    pub fn new(value: u64) -> (r: EraId)
        ensures
            r.0 == value,
    {
        EraId(value)
    }

    /// The era number.
    pub fn value(&self) -> (r: u64)
        ensures
            r == self.0,
    {
        self.0
    }

    /// The era after this one; the largest era is its own successor.
    pub fn successor(&self) -> (r: EraId)
        ensures
            self.0 < u64::MAX ==> r.0 == self.0 + 1,
            self.0 == u64::MAX ==> r.0 == u64::MAX,
    {
        EraId(self.0.saturating_add(1))
    }
}

/// A tagged address of a record in global state. Addresses within a tag are
/// 64-bit identifiers.
#[derive(Clone, Copy, Debug, PartialEq, Eq, Structural, Hash)]
pub enum Key {
    /// An account, by its account hash.
    Account(u64),
    /// A stored contract or package, by its hash.
    Hash(u64),
    /// An unforgeable reference, by its address.
    URef(u64),
    /// The balance behind a purse, by the purse's address.
    Balance(u64),
    /// The per-era information record of an era.
    EraInfo(EraId),
    /// The registry of system contracts.
    SystemEntityRegistry,
}

/// The kind of record a key addresses.
#[derive(Clone, Copy, Debug, PartialEq, Eq, Structural, Hash)]
pub enum KeyTag {
    Account,
    Hash,
    URef,
    Balance,
    EraInfo,
    SystemEntityRegistry,
}

/// The bytes of `h`, least significant first.
pub open spec fn le_bytes(h: u64) -> Seq<u8> {
    seq![
        h as u8,
        (h >> 8u64) as u8,
        (h >> 16u64) as u8,
        (h >> 24u64) as u8,
        (h >> 32u64) as u8,
        (h >> 40u64) as u8,
        (h >> 48u64) as u8,
        (h >> 56u64) as u8,
    ]
}

/// The byte of a key's tag.
pub open spec fn tag_byte(t: KeyTag) -> u8 {
    match t {
        KeyTag::Account => 0,
        KeyTag::Hash => 1,
        KeyTag::URef => 2,
        KeyTag::Balance => 3,
        KeyTag::EraInfo => 4,
        KeyTag::SystemEntityRegistry => 5,
    }
}

/// The bytes of `k`: its tag byte, then its address, least significant byte
/// first, where it has one.
pub open spec fn key_bytes(k: Key) -> Seq<u8> {
    match k {
        Key::Account(a) => seq![tag_byte(KeyTag::Account)] + le_bytes(a),
        Key::Hash(a) => seq![tag_byte(KeyTag::Hash)] + le_bytes(a),
        Key::URef(a) => seq![tag_byte(KeyTag::URef)] + le_bytes(a),
        Key::Balance(a) => seq![tag_byte(KeyTag::Balance)] + le_bytes(a),
        Key::EraInfo(e) => seq![tag_byte(KeyTag::EraInfo)] + le_bytes(e.0),
        Key::SystemEntityRegistry => seq![tag_byte(KeyTag::SystemEntityRegistry)],
    }
}

/// Whether the bytes of `k` start with `prefix`.
pub open spec fn has_prefix(k: Key, prefix: Seq<u8>) -> bool {
    prefix.len() <= key_bytes(k).len() && key_bytes(k).subrange(0, prefix.len() as int) == prefix
}

/// The tag byte and the address bytes, least significant first.
fn tagged_bytes(tag: u8, a: u64) -> (r: Vec<u8>)
    ensures
        r@ == seq![tag] + le_bytes(a),
{
    let r = vec![
        tag,
        a as u8,
        (a >> 8u64) as u8,
        (a >> 16u64) as u8,
        (a >> 24u64) as u8,
        (a >> 32u64) as u8,
        (a >> 40u64) as u8,
        (a >> 48u64) as u8,
        (a >> 56u64) as u8,
    ];
    assert(r@ =~= seq![tag] + le_bytes(a));
    r
}

/// The tag of `k`.
pub open spec fn tag_of(k: Key) -> KeyTag {
    match k {
        Key::Account(_) => KeyTag::Account,
        Key::Hash(_) => KeyTag::Hash,
        Key::URef(_) => KeyTag::URef,
        Key::Balance(_) => KeyTag::Balance,
        Key::EraInfo(_) => KeyTag::EraInfo,
        Key::SystemEntityRegistry => KeyTag::SystemEntityRegistry,
    }
}

impl Key {
    /// The bytes of this key.
    pub fn to_bytes(&self) -> (r: Vec<u8>)
        ensures
            r@ == key_bytes(*self),
    {
        match self {
            Key::Account(a) => tagged_bytes(0, *a),
            Key::Hash(a) => tagged_bytes(1, *a),
            Key::URef(a) => tagged_bytes(2, *a),
            Key::Balance(a) => tagged_bytes(3, *a),
            Key::EraInfo(e) => tagged_bytes(4, e.0),
            Key::SystemEntityRegistry => {
                let r = vec![5u8];
                assert(r@ =~= seq![5u8]);
                r
            },
        }
    }

    /// Whether the bytes of this key start with `prefix`.
    pub fn has_prefix(&self, prefix: &[u8]) -> (r: bool)
        ensures
            r == has_prefix(*self, prefix@),
    {
        let bytes = self.to_bytes();
        if prefix.len() > bytes.len() {
            return false;
        }
        let mut i: usize = 0;
        while i < prefix.len()
            invariant
                bytes@ == key_bytes(*self),
                prefix@.len() <= bytes@.len(),
                i <= prefix@.len(),
                forall|j: int| 0 <= j < i ==> bytes@[j] == prefix@[j],
            decreases prefix@.len() - i,
        {
            if bytes[i] != prefix[i] {
                assert(key_bytes(*self).subrange(0, prefix@.len() as int)[i as int] != prefix@[i as int]);
                return false;
            }
            i = i + 1;
        }
        assert(key_bytes(*self).subrange(0, prefix@.len() as int) =~= prefix@);
        true
    }

    /// The kind of record this key addresses.
    pub fn tag(&self) -> (r: KeyTag)
        ensures
            r == tag_of(*self),
    {
        match self {
            Key::Account(_) => KeyTag::Account,
            Key::Hash(_) => KeyTag::Hash,
            Key::URef(_) => KeyTag::URef,
            Key::Balance(_) => KeyTag::Balance,
            Key::EraInfo(_) => KeyTag::EraInfo,
            Key::SystemEntityRegistry => KeyTag::SystemEntityRegistry,
        }
    }
}

/// The public identity of a validator or an account holder, by a 64-bit
/// identifier.
#[derive(Clone, Copy, Debug, PartialEq, Eq, Structural, Hash)]
pub struct PublicKey(pub u64);

} // verus!
