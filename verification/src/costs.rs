//! What transactions cost, and how gas is metered.
use crate::hardfork::RulesView;
use crate::machine::Gas;
use crate::model::{gas_charged, gas_in_range, initial_gas, listed_slots, zero_bytes};
use crate::primitives::{H160, H256};
use vstd::prelude::*;

verus! {

/// The storage indices of two access lists together are those of the one and those of the
/// other, and those of one entry are as many as it lists.
pub proof fn law_listed_slots(
    first: Seq<(H160, Vec<H256>)>,
    second: Seq<(H160, Vec<H256>)>,
    entry: (H160, Vec<H256>),
)
    ensures
        listed_slots(Seq::empty()) == 0,
        listed_slots(seq![entry]) == entry.1@.len(),
        listed_slots(first + second) == listed_slots(first) + listed_slots(second),
    decreases second.len(),
{
    assert(seq![entry].drop_last() =~= Seq::<(H160, Vec<H256>)>::empty());
    if second.len() == 0 {
        assert(first + second =~= first);
    } else {
        law_listed_slots(first, second.drop_last(), entry);
        assert((first + second).drop_last() =~= first + second.drop_last());
    }
}

/// The zero bytes of two inputs together are those of the one and those of the other.
pub proof fn law_zero_bytes(first: Seq<u8>, second: Seq<u8>, byte: u8)
    ensures
        zero_bytes(Seq::empty()) == 0,
        zero_bytes(seq![byte]) == if byte == 0 {
            1nat
        } else {
            0nat
        },
        zero_bytes(first + second) == zero_bytes(first) + zero_bytes(second),
        zero_bytes(first) <= first.len(),
    decreases first.len() + second.len(),
{
    reveal(Seq::filter);
    assert(seq![byte].drop_last() =~= Seq::<u8>::empty());
    if second.len() == 0 {
        assert(first + second =~= first);
        if first.len() > 0 {
            law_zero_bytes(first.drop_last(), second, byte);
        }
    } else {
        law_zero_bytes(first, second.drop_last(), byte);
        assert((first + second).drop_last() =~= first + second.drop_last());
    }
}

/// A transaction without input and without an access list uses its base price before any
/// code runs.
pub proof fn law_initial_gas_of_nothing(rules: RulesView)
    ensures
        initial_gas(rules, Seq::empty(), false, Seq::empty()) == rules.gas_transaction_call,
        initial_gas(rules, Seq::empty(), true, Seq::empty()) == rules.gas_transaction_create,
{
    law_zero_bytes(Seq::empty(), Seq::empty(), 0);
    assert(0 * rules.gas_transaction_zero_data as nat == 0) by (nonlinear_arith);
    assert(0 * rules.gas_transaction_non_zero_data as nat == 0) by (nonlinear_arith);
    assert(0 * rules.gas_access_list_address as nat == 0) by (nonlinear_arith);
    assert(0 * rules.gas_access_list_storage_key as nat == 0) by (nonlinear_arith);
}

/// One more byte anywhere in the input raises the gas that a transaction uses before any
/// code runs by exactly the price of such a byte.
pub proof fn law_initial_gas_of_a_byte(
    rules: RulesView,
    is_create: bool,
    first: Seq<u8>,
    byte: u8,
    second: Seq<u8>,
    list: Seq<(H160, Vec<H256>)>,
)
    ensures
        initial_gas(rules, first + seq![byte] + second, is_create, list) == initial_gas(
            rules,
            first + second,
            is_create,
            list,
        ) + if byte == 0 {
            rules.gas_transaction_zero_data
        } else {
            rules.gas_transaction_non_zero_data
        },
{
    law_zero_bytes(first, second, byte);
    law_zero_bytes(first, seq![byte], byte);
    law_zero_bytes(first + seq![byte], second, byte);
    law_zero_bytes(first + second, Seq::empty(), byte);
    let zeros = zero_bytes(first + second);
    let others = ((first + second).len() - zeros) as nat;
    let (zero, other) = (
        rules.gas_transaction_zero_data as nat,
        rules.gas_transaction_non_zero_data as nat,
    );
    assert((zeros + 1) * zero == zeros * zero + zero) by (nonlinear_arith);
    assert((others + 1) * other == others * other + other) by (nonlinear_arith);
}

/// One more entry anywhere in the access list raises the gas that a transaction uses
/// before any code runs by exactly the price of an address and, for each storage index
/// that it lists, the price of a storage index.
pub proof fn law_initial_gas_of_an_entry(
    rules: RulesView,
    is_create: bool,
    data: Seq<u8>,
    first: Seq<(H160, Vec<H256>)>,
    entry: (H160, Vec<H256>),
    second: Seq<(H160, Vec<H256>)>,
)
    ensures
        initial_gas(rules, data, is_create, first + seq![entry] + second) == initial_gas(
            rules,
            data,
            is_create,
            first + second,
        ) + rules.gas_access_list_address + entry.1@.len() * rules.gas_access_list_storage_key,
{
    law_listed_slots(first, second, entry);
    law_listed_slots(first, seq![entry], entry);
    law_listed_slots(first + seq![entry], second, entry);
    let count = (first + second).len();
    let slots = listed_slots(first + second);
    let more = entry.1@.len();
    let (account, slot) = (
        rules.gas_access_list_address as nat,
        rules.gas_access_list_storage_key as nat,
    );
    assert((count + 1) * account == count * account + account) by (nonlinear_arith);
    assert((slots + more) * slot == slots * slot + more * slot) by (nonlinear_arith);
}

/// The gas of a transaction can be counted exactly if its storage indices and what it uses
/// before any code runs fit in 64 bits and, unless it is refused for want of gas, the price
/// of all its gas is below 2 to the power of 256.
pub proof fn law_gas_in_range(
    rules: RulesView,
    data: Seq<u8>,
    is_create: bool,
    list: Seq<(H160, Vec<H256>)>,
    gas_limit: u64,
    gas_price: nat,
)
    ensures
        listed_slots(list) > u64::MAX ==> !gas_in_range(
            rules,
            data,
            is_create,
            list,
            gas_limit,
            gas_price,
        ),
        initial_gas(rules, data, is_create, list) > u64::MAX ==> !gas_in_range(
            rules,
            data,
            is_create,
            list,
            gas_limit,
            gas_price,
        ),
        listed_slots(list) <= u64::MAX && initial_gas(rules, data, is_create, list) <= u64::MAX
            ==> (gas_in_range(rules, data, is_create, list, gas_limit, gas_price) <==> gas_limit
            < initial_gas(rules, data, is_create, list) || gas_limit * gas_price
            < 0x1_0000_0000_0000_0000_0000_0000_0000_0000_0000_0000_0000_0000_0000_0000_0000_0000nat),
{
}

/// A transaction is charged for what it has used, less its refund or, if that is smaller,
/// half of what it has used, rounded down. A negative refund counts as a large one.
pub proof fn law_charge(spent: int, refunded: i64)
    requires
        0 <= spent <= u64::MAX,
    ensures
        0 <= refunded <= spent / 2 ==> gas_charged(spent, refunded) == spent - refunded,
        refunded > spent / 2 ==> gas_charged(spent, refunded) == spent - spent / 2,
        refunded < 0 ==> gas_charged(spent, refunded) == spent - spent / 2,
{
}

/// A meter takes a cost exactly if that much is left, and is otherwise left as it is.
pub proof fn law_gas_meter(gas: Gas, cost: u64)
    requires
        gas.wf(),
    ensures
        ({
            let (taken, after) = gas.charged(cost);
            &&& taken <==> cost <= gas.limit - gas.used
            &&& after.limit == gas.limit
            &&& after.refunded == gas.refunded
            &&& after.used == if taken {
                gas.used + cost
            } else {
                gas.used as int
            }
            &&& after.wf()
        }),
{
}

} // verus!
