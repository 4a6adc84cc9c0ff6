//! The rules of the protocol, which change from one hard fork to the next.
use crate::precompiles::{Precompile, Precompiles};
use crate::primitives::H160;
use vstd::prelude::*;

verus! {

/// A set of rules.
pub trait Spec {
    /// The gas that a transaction costs that creates a contract.
    const GAS_TRANSACTION_CREATE: u64;

    /// The gas that a transaction costs that makes a call.
    const GAS_TRANSACTION_CALL: u64;

    /// The gas that a zero byte of the input costs.
    const GAS_TRANSACTION_ZERO_DATA: u64;

    /// The gas that another byte of the input costs.
    const GAS_TRANSACTION_NON_ZERO_DATA: u64;

    /// The gas that an address in the access list costs.
    const GAS_ACCESS_LIST_ADDRESS: u64;

    /// The gas that a storage index in the access list costs.
    const GAS_ACCESS_LIST_STORAGE_KEY: u64;

    /// How deeply calls may be nested.
    const CALL_STACK_LIMIT: u64;

    /// Whether the nonce of a new contract starts at one.
    const CREATE_INCREASE_NONCE: bool;

    /// Whether the rules are those inside a static call.
    const IS_STATIC_CALL: bool;

    /// The largest length of the code of a new contract.
    open spec fn contract_limit() -> Option<usize> {
        None
    }

    /// The largest length of the code of a new contract, if there is one.
    fn create_contract_limit() -> (r: Option<usize>)
        ensures
            r == Self::contract_limit(),
    ;

    /// What is built in.
    open spec fn built_in() -> Seq<Precompile> {
        Seq::empty()
    }

    /// The contracts that are built in.
    fn precompiles() -> (r: Precompiles)
        ensures
            r@ == Self::built_in(),
    ;
}

/// What a set of rules says.
pub struct RulesView {
    pub gas_transaction_create: u64,
    pub gas_transaction_call: u64,
    pub gas_transaction_zero_data: u64,
    pub gas_transaction_non_zero_data: u64,
    pub gas_access_list_address: u64,
    pub gas_access_list_storage_key: u64,
    pub call_stack_limit: u64,
    pub create_increase_nonce: bool,
    pub is_static_call: bool,
    pub contract_limit: Option<usize>,
    pub precompiles: Seq<Precompile>,
}

/// What the rules `SPEC` say.
pub open spec fn rules<SPEC: Spec>() -> RulesView {
    RulesView {
        gas_transaction_create: SPEC::GAS_TRANSACTION_CREATE,
        gas_transaction_call: SPEC::GAS_TRANSACTION_CALL,
        gas_transaction_zero_data: SPEC::GAS_TRANSACTION_ZERO_DATA,
        gas_transaction_non_zero_data: SPEC::GAS_TRANSACTION_NON_ZERO_DATA,
        gas_access_list_address: SPEC::GAS_ACCESS_LIST_ADDRESS,
        gas_access_list_storage_key: SPEC::GAS_ACCESS_LIST_STORAGE_KEY,
        call_stack_limit: SPEC::CALL_STACK_LIMIT,
        create_increase_nonce: SPEC::CREATE_INCREASE_NONCE,
        is_static_call: SPEC::IS_STATIC_CALL,
        contract_limit: SPEC::contract_limit(),
        precompiles: SPEC::built_in(),
    }
}

/// What rules say is what their constants and functions give.
pub proof fn law_rules<SPEC: Spec>()
    ensures
        ({
            let said = rules::<SPEC>();
            &&& said.gas_transaction_create == SPEC::GAS_TRANSACTION_CREATE
            &&& said.gas_transaction_call == SPEC::GAS_TRANSACTION_CALL
            &&& said.gas_transaction_zero_data == SPEC::GAS_TRANSACTION_ZERO_DATA
            &&& said.gas_transaction_non_zero_data == SPEC::GAS_TRANSACTION_NON_ZERO_DATA
            &&& said.gas_access_list_address == SPEC::GAS_ACCESS_LIST_ADDRESS
            &&& said.gas_access_list_storage_key == SPEC::GAS_ACCESS_LIST_STORAGE_KEY
            &&& said.call_stack_limit == SPEC::CALL_STACK_LIMIT
            &&& said.create_increase_nonce == SPEC::CREATE_INCREASE_NONCE
            &&& said.is_static_call == SPEC::IS_STATIC_CALL
            &&& said.contract_limit == SPEC::contract_limit()
            &&& said.precompiles == SPEC::built_in()
        }),
{
}

/// Rules under which the state may change.
pub trait NotStaticSpec {

}

/// The rules of the Berlin hard fork.
pub struct BerlinSpec;

/// The rules of the Berlin hard fork inside a static call.
pub struct BerlinStaticSpec;

/// The address whose last byte is `last` and whose other bytes are zero.
pub open spec fn low_address(last: u8) -> H160 {
    H160([0u8, 0, 0, 0, 0, 0, 0, 0, 0, 0, 0, 0, 0, 0, 0, 0, 0, 0, 0, last])
}

/// The built-in contract with the given number, which stands at the address with
/// that number.
pub open spec fn numbered(number: u8) -> Precompile {
    Precompile { address: low_address(number), function: number as u64 }
}

/// The contracts one to nine.
pub open spec fn berlin_built_in() -> Seq<Precompile> {
    Seq::new(9, |i: int| numbered((i + 1) as u8))
}

fn berlin_precompiles() -> (r: Precompiles)
    ensures
        r@ == berlin_built_in(),
{
    let mut entries: Vec<Precompile> = Vec::new();
    let mut last: u8 = 1;
    while last <= 9
        invariant
            1 <= last <= 10,
            entries@ == Seq::new((last - 1) as nat, |i: int| numbered((i + 1) as u8)),
        decreases 10 - last,
    {
        let address = H160([0, 0, 0, 0, 0, 0, 0, 0, 0, 0, 0, 0, 0, 0, 0, 0, 0, 0, 0, last]);
        entries.push(Precompile { address, function: last as u64 });
        last = last + 1;
        assert(entries@ =~= Seq::new((last - 1) as nat, |i: int| numbered((i + 1) as u8)));
    }
    Precompiles::of(entries)
}

impl Spec for BerlinSpec {
    const GAS_TRANSACTION_CREATE: u64 = 53000;

    const GAS_TRANSACTION_CALL: u64 = 21000;

    const GAS_TRANSACTION_ZERO_DATA: u64 = 4;

    const GAS_TRANSACTION_NON_ZERO_DATA: u64 = 16;

    const GAS_ACCESS_LIST_ADDRESS: u64 = 2400;

    const GAS_ACCESS_LIST_STORAGE_KEY: u64 = 1900;

    const CALL_STACK_LIMIT: u64 = 1024;

    const CREATE_INCREASE_NONCE: bool = true;

    const IS_STATIC_CALL: bool = false;

    open spec fn contract_limit() -> Option<usize> {
        Some(0x6000)
    }

    fn create_contract_limit() -> (r: Option<usize>) {
        Some(0x6000)
    }

    open spec fn built_in() -> Seq<Precompile> {
        berlin_built_in()
    }

    fn precompiles() -> (r: Precompiles) {
        berlin_precompiles()
    }
}

impl NotStaticSpec for BerlinSpec {

}

impl Spec for BerlinStaticSpec {
    const GAS_TRANSACTION_CREATE: u64 = 53000;

    const GAS_TRANSACTION_CALL: u64 = 21000;

    const GAS_TRANSACTION_ZERO_DATA: u64 = 4;

    const GAS_TRANSACTION_NON_ZERO_DATA: u64 = 16;

    const GAS_ACCESS_LIST_ADDRESS: u64 = 2400;

    const GAS_ACCESS_LIST_STORAGE_KEY: u64 = 1900;

    const CALL_STACK_LIMIT: u64 = 1024;

    const CREATE_INCREASE_NONCE: bool = true;

    const IS_STATIC_CALL: bool = true;

    open spec fn contract_limit() -> Option<usize> {
        Some(0x6000)
    }

    fn create_contract_limit() -> (r: Option<usize>) {
        Some(0x6000)
    }

    open spec fn built_in() -> Seq<Precompile> {
        berlin_built_in()
    }

    fn precompiles() -> (r: Precompiles) {
        berlin_precompiles()
    }
}

/// What the Berlin rules say.
pub open spec fn berlin_rules(is_static_call: bool) -> RulesView {
    RulesView {
        gas_transaction_create: 53000,
        gas_transaction_call: 21000,
        gas_transaction_zero_data: 4,
        gas_transaction_non_zero_data: 16,
        gas_access_list_address: 2400,
        gas_access_list_storage_key: 1900,
        call_stack_limit: 1024,
        create_increase_nonce: true,
        is_static_call,
        contract_limit: Some(0x6000),
        precompiles: berlin_built_in(),
    }
}

/// Whether rules charge what the Berlin hard fork charges, allow calls to be nested as
/// deeply as it does and code to be as long, start contracts with a nonce of one, and have
/// the contracts one to nine built in, each at the address with its number.
pub open spec fn are_berlin(rules: RulesView) -> bool {
    &&& rules.gas_transaction_create == 53000
    &&& rules.gas_transaction_call == 21000
    &&& rules.gas_transaction_zero_data == 4
    &&& rules.gas_transaction_non_zero_data == 16
    &&& rules.gas_access_list_address == 2400
    &&& rules.gas_access_list_storage_key == 1900
    &&& rules.call_stack_limit == 1024
    &&& rules.create_increase_nonce
    &&& rules.contract_limit == Some(24576usize)
    &&& rules.precompiles.len() == 9
    &&& forall|k: int, i: int|
        0 <= k < 9 && 0 <= i < 19 ==> #[trigger] rules.precompiles[k].address.0@[i] == 0
    &&& forall|k: int|
        0 <= k < 9 ==> (#[trigger] rules.precompiles[k]).address.0@[19] == k + 1
            && rules.precompiles[k].function == k + 1
}

/// The two sets of Berlin rules differ only in whether the state may change.
pub proof fn law_berlin_rules()
    ensures
        rules::<BerlinSpec>() == berlin_rules(false),
        rules::<BerlinStaticSpec>() == berlin_rules(true),
        are_berlin(rules::<BerlinSpec>()),
        are_berlin(rules::<BerlinStaticSpec>()),
        !rules::<BerlinSpec>().is_static_call,
        rules::<BerlinStaticSpec>().is_static_call,
{
}

} // verus!
