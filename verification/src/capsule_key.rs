use vstd::prelude::*;

use crate::Capsule;

verus! {

/// The number of distinct keys a single capsule type can have; used to lay
/// the `(capsule_type, capsule_key)` pair out as one integer.
pub const KEY_SPACE: u128 = 0x1_0000_0000_0000_0000u128;

/// Represents a static or dynamic capsule key. See [`Capsule::key`].
///
/// A key is reduced to a `u64` so that two keys of one capsule type are
/// equal exactly when their reductions are equal.
pub trait CapsuleKey: Sized {
    spec fn spec_key_bits(&self) -> u64;

    fn key_bits(&self) -> (bits: u64)
        ensures
            bits == self.spec_key_bits(),
    ;

    /// Distinct keys have distinct reductions.
    proof fn lemma_key_bits_injective(a: Self, b: Self)
        requires
            a.spec_key_bits() == b.spec_key_bits(),
        ensures
            a == b,
    ;
}

impl CapsuleKey for () {
    open spec fn spec_key_bits(&self) -> u64 {
        0
    }

    fn key_bits(&self) -> (bits: u64) {
        0
    }

    proof fn lemma_key_bits_injective(a: Self, b: Self) {
    }
}

impl CapsuleKey for bool {
    open spec fn spec_key_bits(&self) -> u64 {
        if *self {
            1
        } else {
            0
        }
    }

    fn key_bits(&self) -> (bits: u64) {
        if *self {
            1
        } else {
            0
        }
    }

    proof fn lemma_key_bits_injective(a: Self, b: Self) {
    }
}

impl CapsuleKey for u8 {
    open spec fn spec_key_bits(&self) -> u64 {
        *self as u64
    }

    fn key_bits(&self) -> (bits: u64) {
        *self as u64
    }

    proof fn lemma_key_bits_injective(a: Self, b: Self) {
    }
}

impl CapsuleKey for u16 {
    open spec fn spec_key_bits(&self) -> u64 {
        *self as u64
    }

    fn key_bits(&self) -> (bits: u64) {
        *self as u64
    }

    proof fn lemma_key_bits_injective(a: Self, b: Self) {
    }
}

impl CapsuleKey for u32 {
    open spec fn spec_key_bits(&self) -> u64 {
        *self as u64
    }

    fn key_bits(&self) -> (bits: u64) {
        *self as u64
    }

    proof fn lemma_key_bits_injective(a: Self, b: Self) {
    }
}

impl CapsuleKey for u64 {
    open spec fn spec_key_bits(&self) -> u64 {
        *self
    }

    fn key_bits(&self) -> (bits: u64) {
        *self
    }

    proof fn lemma_key_bits_injective(a: Self, b: Self) {
    }
}

/// Equality of capsule keys as a container sees it: two keys are the same key exactly when
/// their reductions are equal.
pub trait DynCapsuleKey: CapsuleKey {
    fn dyn_eq(&self, other: &Self) -> (r: bool)
        ensures
            r == (self.spec_key_bits() == other.spec_key_bits()),
    ;
}

impl<T: CapsuleKey> DynCapsuleKey for T {
    fn dyn_eq(&self, other: &Self) -> (r: bool) {
        self.key_bits() == other.key_bits()
    }
}

/// The identity of a capsule within a container: the kind of capsule
/// together with its (possibly dynamic) key.
///
/// Two capsules with the same key but different kinds stay separate.
#[derive(Clone, Copy, Debug, PartialEq, Eq, Hash)]
pub struct CapsuleId {
    capsule_type: u64,
    capsule_key: u64,
}

impl CapsuleId {
    pub closed spec fn spec_new(capsule_type: u64, capsule_key: u64) -> CapsuleId {
        CapsuleId { capsule_type, capsule_key }
    }

    pub closed spec fn spec_capsule_type(self) -> u64 {
        self.capsule_type
    }

    pub closed spec fn spec_capsule_key(self) -> u64 {
        self.capsule_key
    }

    /// The single integer under which this id is stored in a container.
    pub open spec fn spec_raw(self) -> u128 {
        (self.spec_capsule_type() as int * KEY_SPACE as int + self.spec_capsule_key() as int) as u128
    }

    pub fn new(capsule_type: u64, capsule_key: u64) -> (id: CapsuleId)
        ensures
            id == CapsuleId::spec_new(capsule_type, capsule_key),
            id.spec_capsule_type() == capsule_type,
            id.spec_capsule_key() == capsule_key,
    {
        CapsuleId { capsule_type, capsule_key }
    }

    pub fn capsule_type(&self) -> (t: u64)
        ensures
            t == self.spec_capsule_type(),
    {
        self.capsule_type
    }

    pub fn capsule_key(&self) -> (k: u64)
        ensures
            k == self.spec_capsule_key(),
    {
        self.capsule_key
    }

    /// Lays the id out as one integer; distinct ids give distinct integers.
    pub fn raw(&self) -> (r: u128)
        ensures
            r == self.spec_raw(),
            r as int == self.spec_capsule_type() as int * KEY_SPACE as int
                + self.spec_capsule_key() as int,
    {
        assert(self.capsule_type as int * KEY_SPACE as int + self.capsule_key as int
            <= u128::MAX) by (nonlinear_arith)
            requires
                self.capsule_type <= u64::MAX,
                self.capsule_key <= u64::MAX,
                KEY_SPACE == 0x1_0000_0000_0000_0000u128,
        ;
        (self.capsule_type as u128) * KEY_SPACE + (self.capsule_key as u128)
    }

    /// The id stored under the integer `raw` (the inverse of [`CapsuleId::raw`]).
    pub fn from_raw(raw: u128) -> (id: CapsuleId)
        ensures
            id.spec_raw() == raw,
    {
        let capsule_type = (raw / KEY_SPACE) as u64;
        let capsule_key = (raw % KEY_SPACE) as u64;
        let id = CapsuleId { capsule_type, capsule_key };
        assert(capsule_type as int * KEY_SPACE as int + capsule_key as int == raw) by (nonlinear_arith)
            requires
                capsule_type as int == raw as int / KEY_SPACE as int,
                capsule_key as int == raw as int % KEY_SPACE as int,
                KEY_SPACE == 0x1_0000_0000_0000_0000u128,
        ;
        id
    }

    /// Two ids are equal exactly when both their kinds and their keys are equal.
    pub fn same_as(&self, other: &CapsuleId) -> (r: bool)
        ensures
            r == (self.spec_raw() == other.spec_raw()),
            r == (*self == *other),
    {
        proof {
            lemma_raw_injective(*self, *other);
        }
        self.capsule_type == other.capsule_type && self.capsule_key == other.capsule_key
    }
}

/// An id made of a kind and a key has that kind and that key.
pub proof fn lemma_id_parts(capsule_type: u64, capsule_key: u64)
    ensures
        CapsuleId::spec_new(capsule_type, capsule_key).spec_capsule_type() == capsule_type,
        CapsuleId::spec_new(capsule_type, capsule_key).spec_capsule_key() == capsule_key,
{
}

/// Distinct ids are stored under distinct integers.
pub proof fn lemma_raw_injective(a: CapsuleId, b: CapsuleId)
    ensures
        a.spec_raw() == b.spec_raw() <==> a == b,
{
    let ta = a.spec_capsule_type() as int;
    let tb = b.spec_capsule_type() as int;
    let ka = a.spec_capsule_key() as int;
    let kb = b.spec_capsule_key() as int;
    assert(ta * KEY_SPACE as int + ka <= u128::MAX) by (nonlinear_arith)
        requires
            0 <= ta <= u64::MAX,
            0 <= ka <= u64::MAX,
            KEY_SPACE == 0x1_0000_0000_0000_0000u128,
    ;
    assert(tb * KEY_SPACE as int + kb <= u128::MAX) by (nonlinear_arith)
        requires
            0 <= tb <= u64::MAX,
            0 <= kb <= u64::MAX,
            KEY_SPACE == 0x1_0000_0000_0000_0000u128,
    ;
    if ta * KEY_SPACE as int + ka == tb * KEY_SPACE as int + kb {
        assert(ta == tb && ka == kb) by (nonlinear_arith)
            requires
                ta * KEY_SPACE as int + ka == tb * KEY_SPACE as int + kb,
                0 <= ka <= u64::MAX,
                0 <= kb <= u64::MAX,
                0 <= ta,
                0 <= tb,
                KEY_SPACE == 0x1_0000_0000_0000_0000u128,
        ;
    }
}

/// Creates the [`CapsuleId`] of a capsule from its kind and its key.
pub trait CreateCapsuleId {
    spec fn spec_id(&self) -> CapsuleId;

    fn id(&self) -> (id: CapsuleId)
        ensures
            id == self.spec_id(),
    ;
}

impl<C: Capsule> CreateCapsuleId for C {
    open spec fn spec_id(&self) -> CapsuleId {
        CapsuleId::spec_new(self.spec_capsule_type(), self.spec_key().spec_key_bits())
    }

    fn id(&self) -> (id: CapsuleId) {
        let key = self.key();
        CapsuleId::new(self.capsule_type(), key.key_bits())
    }
}

} // verus!
