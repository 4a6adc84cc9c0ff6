//! The addresses of new contracts.
use crate::digest::{hash_of, keccak_hash};
use crate::primitives::{h160, H160, H256};
use vstd::prelude::*;

verus! {

/// The bytes of a number, most significant first, without leading zeros.
pub open spec fn big_endian(n: nat) -> Seq<u8>
    decreases n,
{
    if n == 0 {
        Seq::empty()
    } else {
        big_endian(n / 256).push((n % 256) as u8)
    }
}

/// The recursive-length-prefix encoding of a number below 2^64: a number from 1
/// to 127 is its own encoding, and others are their bytes behind 0x80 plus the
/// number of bytes.
pub open spec fn rlp_number(n: nat) -> Seq<u8> {
    if 0 < n < 0x80 {
        seq![n as u8]
    } else {
        seq![(0x80 + big_endian(n).len()) as u8] + big_endian(n)
    }
}

/// The recursive-length-prefix encoding of the list of an address and a number
/// below 2^64.
pub open spec fn rlp_sender(caller: H160, nonce: nat) -> Seq<u8> {
    let payload = seq![0x94u8] + caller.0@ + rlp_number(nonce);
    seq![(0xc0 + payload.len()) as u8] + payload
}

/// The address that `caller` creates a contract at when its nonce is `nonce`.
pub open spec fn address_by_nonce(caller: H160, nonce: u64) -> H160 {
    h160(hash_of(rlp_sender(caller, nonce as nat)).0@.subrange(12, 32))
}

/// The address that `caller` creates a contract at with `salt` and the init code
/// that has the hash `code_hash`.
pub open spec fn address_by_salt(caller: H160, code_hash: H256, salt: H256) -> H160 {
    h160(hash_of(seq![0xffu8] + caller.0@ + salt.0@ + code_hash.0@).0@.subrange(12, 32))
}

proof fn lemma_big_endian_len(n: nat)
    requires
        n <= u64::MAX,
    ensures
        big_endian(n).len() <= 8,
{
    reveal_with_fuel(big_endian, 9);
}

fn big_endian_bytes(n: u64) -> (r: Vec<u8>)
    ensures
        r@ == big_endian(n as nat),
    decreases n,
{
    if n == 0 {
        Vec::new()
    } else {
        let mut bytes = big_endian_bytes(n / 256);
        bytes.push((n % 256) as u8);
        bytes
    }
}

fn push_all(bytes: &mut Vec<u8>, more: &[u8])
    ensures
        final(bytes)@ == old(bytes)@ + more@,
{
    let mut i: usize = 0;
    while i < more.len()
        invariant
            i <= more@.len(),
            bytes@ == old(bytes)@ + more@.take(i as int),
        decreases more@.len() - i,
    {
        bytes.push(more[i]);
        assert(more@.take(i + 1) =~= more@.take(i as int).push(more@[i as int]));
        i = i + 1;
    }
    assert(more@.take(more@.len() as int) =~= more@);
}

/// The address of the contract that `caller` creates with its nonce.
pub fn create_address(caller: H160, nonce: u64) -> (r: H160)
    ensures
        r == address_by_nonce(caller, nonce),
{
    let mut payload: Vec<u8> = Vec::new();
    payload.push(0x94);
    push_all(&mut payload, &caller.0);
    if 0 < nonce && nonce < 0x80 {
        payload.push(nonce as u8);
    } else {
        let bytes = big_endian_bytes(nonce);
        proof {
            lemma_big_endian_len(nonce as nat);
        }
        payload.push(0x80 + bytes.len() as u8);
        push_all(&mut payload, bytes.as_slice());
    }
    assert(payload@ =~= seq![0x94u8] + caller.0@ + rlp_number(nonce as nat));
    assert(payload@.len() <= 30) by {
        lemma_big_endian_len(nonce as nat);
    }
    let mut list: Vec<u8> = Vec::new();
    list.push(0xc0 + payload.len() as u8);
    push_all(&mut list, payload.as_slice());
    assert(list@ =~= rlp_sender(caller, nonce as nat));
    H160::from_hash(keccak_hash(list.as_slice()))
}

/// The address of the contract that `caller` creates with a salt.
pub fn create2_address(caller: H160, code_hash: H256, salt: H256) -> (r: H160)
    ensures
        r == address_by_salt(caller, code_hash, salt),
{
    let mut bytes: Vec<u8> = Vec::new();
    bytes.push(0xff);
    push_all(&mut bytes, &caller.0);
    push_all(&mut bytes, &salt.0);
    push_all(&mut bytes, &code_hash.0);
    assert(bytes@ =~= seq![0xffu8] + caller.0@ + salt.0@ + code_hash.0@);
    H160::from_hash(keccak_hash(bytes.as_slice()))
}

} // verus!
