//! How addresses, hashes and reports are made up, and how machines start.
use crate::digest::{hash_of, hex_text, keccak256};
use crate::machine::{fresh_machine, ContractView, MachineView};
use crate::opcode::OpCode;
use crate::primitives::{lemma_h160, lemma_h256, zero_hash, H160, H256};
use crate::trace::{instruction_view, TraceView};
use crate::util::{address_by_nonce, address_by_salt, big_endian, rlp_sender};
use vstd::prelude::*;

verus! {

/// The number that bytes stand for, the most significant first.
pub open spec fn number_of(bytes: Seq<u8>) -> nat
    decreases bytes.len(),
{
    if bytes.len() == 0 {
        0
    } else {
        number_of(bytes.drop_last()) * 256 + bytes.last() as nat
    }
}

/// The bytes of a number stand for it, and the first of them is not zero.
pub proof fn law_big_endian(n: nat)
    ensures
        number_of(big_endian(n)) == n,
        big_endian(n).len() > 0 ==> big_endian(n)[0] != 0,
        n > 0 ==> big_endian(n).len() > 0,
    decreases n,
{
    if n > 0 {
        law_big_endian(n / 256);
        assert(big_endian(n).drop_last() =~= big_endian(n / 256));
    }
}

/// Whether `bytes` encode a number: itself, from 1 to 127, or else its bytes without
/// leading zeros behind a byte that tells how many they are.
pub open spec fn encodes_number(bytes: Seq<u8>, n: nat) -> bool {
    if 0 < n < 0x80 {
        bytes.len() == 1 && bytes[0] == n
    } else {
        let digits = bytes.drop_first();
        &&& bytes.len() > 0
        &&& bytes[0] == 0x80 + digits.len()
        &&& number_of(digits) == n
        &&& digits.len() > 0 ==> digits[0] != 0
    }
}

/// The encoding of a creator and its nonce is a list of the two: a byte that tells the
/// length, a byte that tells that 20 bytes follow, these 20, and the number.
pub proof fn law_rlp_sender(caller: H160, nonce: u64)
    ensures
        ({
            let bytes = rlp_sender(caller, nonce as nat);
            &&& bytes.len() > 22
            &&& bytes[0] == 0xc0 + bytes.len() - 1
            &&& bytes[1] == 0x80 + 20
            &&& bytes.subrange(2, 22) == caller.0@
            &&& encodes_number(bytes.skip(22), nonce as nat)
        }),
{
    let bytes = rlp_sender(caller, nonce as nat);
    let digits = big_endian(nonce as nat);
    law_big_endian(nonce as nat);
    assert(digits.len() <= 8) by {
        reveal_with_fuel(big_endian, 9);
    }
    assert(bytes.subrange(2, 22) =~= caller.0@);
    if 0 < nonce < 0x80 {
        assert(bytes.skip(22) =~= seq![nonce as u8]);
    } else {
        assert(bytes.skip(22).drop_first() =~= digits);
    }
}

/// A contract that is created with a nonce stands at the last 20 bytes of the hash of the
/// encoding of its creator and that nonce.
pub proof fn law_address_by_nonce(caller: H160, nonce: u64, hash: H256, place: H160)
    requires
        hash.0@ == keccak256(rlp_sender(caller, nonce as nat)),
        place.0@ == hash.0@.subrange(12, 32),
    ensures
        address_by_nonce(caller, nonce) == place,
{
    lemma_h256(hash);
    lemma_h160(place);
}

/// A contract that is created with a salt stands at the last 20 bytes of the hash of the
/// byte 0xff, its creator, the salt and the hash of its init code, in this order.
pub proof fn law_address_by_salt(
    caller: H160,
    code_hash: H256,
    salt: H256,
    bytes: Seq<u8>,
    hash: H256,
    place: H160,
)
    requires
        bytes.len() == 85,
        bytes[0] == 0xff,
        bytes.subrange(1, 21) == caller.0@,
        bytes.subrange(21, 53) == salt.0@,
        bytes.subrange(53, 85) == code_hash.0@,
        hash.0@ == keccak256(bytes),
        place.0@ == hash.0@.subrange(12, 32),
    ensures
        address_by_salt(caller, code_hash, salt) == place,
{
    lemma_h256(hash);
    lemma_h160(place);
    let whole = seq![0xffu8] + caller.0@ + salt.0@ + code_hash.0@;
    assert forall|i: int| 0 <= i < 85 implies bytes[i] == whole[i] by {
        if 1 <= i < 21 {
            assert(bytes.subrange(1, 21)[i - 1] == bytes[i]);
        } else if 21 <= i < 53 {
            assert(bytes.subrange(21, 53)[i - 21] == bytes[i]);
        } else if 53 <= i {
            assert(bytes.subrange(53, 85)[i - 53] == bytes[i]);
        }
    }
    assert(bytes =~= whole);
}

/// The hash of some bytes is the one whose bytes are their Keccak-256 digest.
pub proof fn law_hash_of(data: Seq<u8>, hash: H256)
    requires
        hash.0@ == keccak256(data),
    ensures
        hash_of(data) == hash,
{
    lemma_h256(hash);
}

/// All bytes of the zero hash are zero.
pub proof fn law_zero_hash(hash: H256)
    requires
        forall|i: int| 0 <= i < 32 ==> hash.0@[i] == 0,
    ensures
        zero_hash() == hash,
{
    lemma_h256(hash);
    assert(hash.0@ =~= Seq::new(32, |i: int| 0u8));
}

/// The number that a lower-case hexadecimal digit stands for.
pub open spec fn digit_value(digit: char) -> int {
    if '0' <= digit <= '9' {
        digit as int - '0' as int
    } else if 'a' <= digit <= 'f' {
        digit as int - 'a' as int + 10
    } else {
        -1
    }
}

/// Hexadecimal text has two digits for each byte, the high one first, and can be read
/// back.
pub proof fn law_hex_text(data: Seq<u8>)
    ensures
        hex_text(data).len() == 2 * data.len(),
        forall|i: int|
            0 <= i < data.len() ==> {
                let (high, low) = (hex_text(data)[2 * i], hex_text(data)[2 * i + 1]);
                &&& 0 <= digit_value(high)
                &&& 0 <= digit_value(low)
                &&& #[trigger] data[i] == 16 * digit_value(high) + digit_value(low)
            },
{
}

/// The report of an instruction tells the instruction, the gas that is left, the refund,
/// the stack and the memory in hexadecimal.
pub proof fn law_instruction_report(opcode: OpCode, machine: MachineView)
    ensures
        instruction_view(opcode, machine) matches TraceView::Instruction {
            opcode: reported,
            remaining,
            refunded,
            stack,
            data,
        } && reported == opcode && remaining + machine.gas.used == machine.gas.limit && refunded
            == machine.gas.refunded && stack == machine.stack && data == hex_text(machine.memory),
{
}

/// A machine starts with its contract and all of its gas, and with nothing on its stack,
/// in its memory and in its output.
pub proof fn law_fresh_machine(contract: ContractView, gas_limit: u64)
    ensures
        ({
            let machine = fresh_machine(contract, gas_limit);
            &&& machine.contract == contract
            &&& machine.gas.limit == gas_limit
            &&& machine.gas.used == 0
            &&& machine.gas.refunded == 0
            &&& machine.stack.len() == 0
            &&& machine.memory.len() == 0
            &&& machine.output.len() == 0
        }),
{
}

} // verus!
