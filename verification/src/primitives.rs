//! Fixed-size values: addresses, hashes and 256-bit unsigned integers.
//!
//! The types hold their bytes or limbs as plain arrays. Arithmetic and
//! comparison of integers is done by the `primitive_types` crate.
use vstd::prelude::*;

verus! {

/// A 160-bit account address, most significant byte first.
#[derive(Clone, Copy, Debug, PartialEq, Eq)]
pub struct H160(pub [u8; 20]);

/// A 256-bit hash or storage word, most significant byte first.
#[derive(Clone, Copy, Debug, PartialEq, Eq)]
pub struct H256(pub [u8; 32]);

/// A 256-bit unsigned integer as four 64-bit limbs, least significant first.
#[derive(Clone, Copy, Debug, PartialEq, Eq)]
pub struct U256(pub [u64; 4]);

/// The number that four limbs stand for, least significant limb first.
pub open spec fn limbs_value(limbs: Seq<u64>) -> nat {
    (limbs[0] + limbs[1] * 0x1_0000_0000_0000_0000 + limbs[2]
        * 0x1_0000_0000_0000_0000_0000_0000_0000_0000 + limbs[3]
        * 0x1_0000_0000_0000_0000_0000_0000_0000_0000_0000_0000_0000_0000) as nat
}

/// One more than the largest value of a `U256`.
pub open spec fn u256_bound() -> nat {
    0x1_0000_0000_0000_0000_0000_0000_0000_0000_0000_0000_0000_0000_0000_0000_0000_0000nat
}

impl View for U256 {
    type V = nat;

    open spec fn view(&self) -> nat {
        limbs_value(self.0@)
    }
}

/// The address with the given 20 bytes.
pub open spec fn h160(bytes: Seq<u8>) -> H160 {
    choose|h: H160| h.0@ == bytes
}

/// The hash with the given 32 bytes.
pub open spec fn h256(bytes: Seq<u8>) -> H256 {
    choose|h: H256| h.0@ == bytes
}

/// The hash with all bits zero.
pub open spec fn zero_hash() -> H256 {
    h256(Seq::new(32, |i: int| 0u8))
}

/// An address is determined by its bytes.
pub proof fn lemma_h160(h: H160)
    ensures
        h160(h.0@) == h,
{
    let other = h160(h.0@);
    assert(other.0@ == h.0@);
    assert(other.0 =~= h.0);
}

/// A hash is determined by its bytes.
pub proof fn lemma_h256(h: H256)
    ensures
        h256(h.0@) == h,
{
    let other = h256(h.0@);
    assert(other.0@ == h.0@);
    assert(other.0 =~= h.0);
}

/// The value of a `U256` lies below its bound.
pub proof fn lemma_u256_bound(u: U256)
    ensures
        u@ < u256_bound(),
{
}

/// Values that a `Table` can be keyed by: comparison decides equality.
pub trait Key: Copy {
    fn same(&self, other: &Self) -> (r: bool)
        ensures
            r == (*self == *other),
    ;
}

impl Key for H160 {
    fn same(&self, other: &Self) -> (r: bool) {
        let mut i: usize = 0;
        while i < 20
            invariant
                i <= 20,
                forall|j: int| 0 <= j < i ==> self.0@[j] == other.0@[j],
            decreases 20 - i,
        {
            if self.0[i] != other.0[i] {
                return false;
            }
            i = i + 1;
        }
        assert(self.0@ =~= other.0@);
        assert(self.0 =~= other.0);
        true
    }
}

impl Key for H256 {
    fn same(&self, other: &Self) -> (r: bool) {
        let mut i: usize = 0;
        while i < 32
            invariant
                i <= 32,
                forall|j: int| 0 <= j < i ==> self.0@[j] == other.0@[j],
            decreases 32 - i,
        {
            if self.0[i] != other.0[i] {
                return false;
            }
            i = i + 1;
        }
        assert(self.0@ =~= other.0@);
        assert(self.0 =~= other.0);
        true
    }
}

impl Key for U256 {
    fn same(&self, other: &Self) -> (r: bool) {
        let r = self.0[0] == other.0[0] && self.0[1] == other.0[1] && self.0[2] == other.0[2]
            && self.0[3] == other.0[3];
        proof {
            if r {
                assert(self.0@ =~= other.0@);
                assert(self.0 =~= other.0);
            }
        }
        r
    }
}

/// Whether `address` is one of `addresses`.
pub fn contains_address(addresses: &Vec<H160>, address: &H160) -> (r: bool)
    ensures
        r == addresses@.contains(*address),
{
    let mut i: usize = 0;
    while i < addresses.len()
        invariant
            i <= addresses@.len(),
            forall|j: int| 0 <= j < i ==> addresses@[j] != *address,
        decreases addresses@.len() - i,
    {
        if addresses[i].same(address) {
            assert(addresses@[i as int] == *address);
            return true;
        }
        i = i + 1;
    }
    false
}

impl H256 {
    /// The hash with all bits zero.
    pub fn zero() -> (r: Self)
        ensures
            r.0@ == Seq::new(32, |i: int| 0u8),
            r == zero_hash(),
    {
        let r = H256(
            [0, 0, 0, 0, 0, 0, 0, 0, 0, 0, 0, 0, 0, 0, 0, 0, 0, 0, 0, 0, 0, 0, 0, 0, 0, 0, 0, 0, 0,
                0, 0, 0],
        );
        assert(r.0@ =~= Seq::new(32, |i: int| 0u8));
        proof {
            lemma_h256(r);
        }
        r
    }

    /// The hash whose bytes are those of `src`.
    pub fn from_slice(src: &[u8]) -> (r: Self)
        requires
            src@.len() == 32,
        ensures
            r.0@ == src@,
            r == h256(src@),
    {
        let r = H256(h256_from_slice(src));
        proof {
            lemma_h256(r);
        }
        r
    }
}

/// Calls `primitive_types::H256::from_slice`, which copies exactly 32 bytes
/// and panics on any other length: the result holds the bytes of `src`.
#[verifier::external_body]
fn h256_from_slice(src: &[u8]) -> (r: [u8; 32])
    requires
        src@.len() == 32,
    ensures
        r@ == src@,
{
    primitive_types::H256::from_slice(src).0
}

impl H160 {
    /// The address made of the last 20 bytes of a hash.
    pub fn from_hash(hash: H256) -> (r: Self)
        ensures
            r.0@ == hash.0@.subrange(12, 32),
            r == h160(hash.0@.subrange(12, 32)),
    {
        let r = H160(h160_from_h256(hash.0));
        proof {
            lemma_h160(r);
        }
        r
    }
}

/// Calls `primitive_types::H160`'s `From<H256>`: the result holds the last 20
/// bytes of `hash`.
#[verifier::external_body]
fn h160_from_h256(hash: [u8; 32]) -> (r: [u8; 20])
    ensures
        r@ == hash@.subrange(12, 32),
{
    primitive_types::H160::from(primitive_types::H256(hash)).0
}

impl U256 {
    /// The number zero.
    pub fn zero() -> (r: Self)
        ensures
            r@ == 0,
    {
        U256([0, 0, 0, 0])
    }

    /// The largest number.
    pub fn max() -> (r: Self)
        ensures
            r@ == u256_bound() - 1,
    {
        U256([u64::MAX, u64::MAX, u64::MAX, u64::MAX])
    }

    /// The number `value`.
    pub fn from_u64(value: u64) -> (r: Self)
        ensures
            r@ == value,
    {
        U256(u256_from_u64(value))
    }

    /// Whether `self` is smaller than `other`.
    pub fn less_than(&self, other: &Self) -> (r: bool)
        ensures
            r == (self@ < other@),
    {
        u256_lt(self.0, other.0)
    }

    /// The product, which has to fit.
    pub fn times(self, other: Self) -> (r: Self)
        requires
            self@ * other@ < u256_bound(),
        ensures
            r@ == self@ * other@,
    {
        U256(u256_mul(self.0, other.0))
    }

    /// The product, or `None` if it does not fit.
    pub fn checked_mul(self, other: Self) -> (r: Option<Self>)
        ensures
            match r {
                Some(product) => product@ == self@ * other@,
                None => self@ * other@ >= u256_bound(),
            },
    {
        match u256_checked_mul(self.0, other.0) {
            Some(limbs) => Some(U256(limbs)),
            None => None,
        }
    }

    /// The sum, or `None` if it does not fit.
    pub fn checked_add(self, other: Self) -> (r: Option<Self>)
        ensures
            match r {
                Some(sum) => sum@ == self@ + other@,
                None => self@ + other@ >= u256_bound(),
            },
    {
        match u256_checked_add(self.0, other.0) {
            Some(limbs) => Some(U256(limbs)),
            None => None,
        }
    }

    /// The difference, or `None` if it would be negative.
    pub fn checked_sub(self, other: Self) -> (r: Option<Self>)
        ensures
            match r {
                Some(difference) => difference@ == self@ - other@,
                None => self@ < other@,
            },
    {
        match u256_checked_sub(self.0, other.0) {
            Some(limbs) => Some(U256(limbs)),
            None => None,
        }
    }
}

/// Calls `primitive_types::U256`'s `From<u64>`: the result has the given value.
#[verifier::external_body]
fn u256_from_u64(value: u64) -> (r: [u64; 4])
    ensures
        limbs_value(r@) == value,
{
    primitive_types::U256::from(value).0
}

/// Calls `primitive_types::U256`'s `PartialOrd::lt`: the order is that of the
/// numbers.
#[verifier::external_body]
fn u256_lt(a: [u64; 4], b: [u64; 4]) -> (r: bool)
    ensures
        r == (limbs_value(a@) < limbs_value(b@)),
{
    primitive_types::U256(a) < primitive_types::U256(b)
}

/// Calls `primitive_types::U256`'s `Mul`, which panics on overflow: where the
/// product fits, the result is the product.
#[verifier::external_body]
fn u256_mul(a: [u64; 4], b: [u64; 4]) -> (r: [u64; 4])
    requires
        limbs_value(a@) * limbs_value(b@) < u256_bound(),
    ensures
        limbs_value(r@) == limbs_value(a@) * limbs_value(b@),
{
    (primitive_types::U256(a) * primitive_types::U256(b)).0
}

/// Calls `primitive_types::U256::checked_mul`: the product where it fits in 256
/// bits, `None` elsewhere.
#[verifier::external_body]
fn u256_checked_mul(a: [u64; 4], b: [u64; 4]) -> (r: Option<[u64; 4]>)
    ensures
        match r {
            Some(product) => limbs_value(product@) == limbs_value(a@) * limbs_value(b@),
            None => limbs_value(a@) * limbs_value(b@) >= u256_bound(),
        },
{
    primitive_types::U256(a).checked_mul(primitive_types::U256(b)).map(|product| product.0)
}

/// Calls `primitive_types::U256::checked_add`: the sum where it fits in 256
/// bits, `None` elsewhere.
#[verifier::external_body]
fn u256_checked_add(a: [u64; 4], b: [u64; 4]) -> (r: Option<[u64; 4]>)
    ensures
        match r {
            Some(sum) => limbs_value(sum@) == limbs_value(a@) + limbs_value(b@),
            None => limbs_value(a@) + limbs_value(b@) >= u256_bound(),
        },
{
    primitive_types::U256(a).checked_add(primitive_types::U256(b)).map(|sum| sum.0)
}

/// Calls `primitive_types::U256::checked_sub`: the difference where it is not
/// negative, `None` elsewhere.
#[verifier::external_body]
fn u256_checked_sub(a: [u64; 4], b: [u64; 4]) -> (r: Option<[u64; 4]>)
    ensures
        match r {
            Some(difference) => limbs_value(difference@) == limbs_value(a@) - limbs_value(b@),
            None => limbs_value(a@) < limbs_value(b@),
        },
{
    primitive_types::U256(a).checked_sub(primitive_types::U256(b)).map(|difference| difference.0)
}

} // verus!
