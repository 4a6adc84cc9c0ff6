//! Calls, creations and transactions, with contracts in a small script language.
use bytes::Bytes;
use evm::db::Database;
use evm::digest::keccak_hash;
use evm::util::{create2_address, create_address};
use evm::{
    AccountInfo, BerlinSpec, BerlinStaticSpec, CallContext, CallStep, Contract, CreateScheme,
    CreateStep, ExitError, ExitFatal, ExitReason, ExitRevert, ExitSucceed, ExtHandler, Gas,
    GlobalEnv, Handler, Log, Machine, MemoryDb, NotStaticSpec, OpCode, Precompile,
    PrecompileOutput, PrecompileResult, Precompiles, Runtime, SelfDestructResult, Spec, State,
    TraceEvent, Tracing, Transfer, TransferRuntime, EVM, H160, H256, U256,
};

const STOP: u8 = 0x00;
const USE_GAS: u8 = 0x01;
const STORE: u8 = 0x02;
const LOG: u8 = 0x03;
const CALL: u8 = 0x04;
const REVERT: u8 = 0x05;
const FAIL: u8 = 0x06;
const RETURN: u8 = 0x07;
const REFUND: u8 = 0x08;
const DESTROY: u8 = 0x09;
const GIVE_UP: u8 = 0x0a;
const CREATE: u8 = 0x0b;
const CALL_SELF: u8 = 0x0c;

/// Runs scripts: one byte for an instruction, followed by its operands.
struct Script;

impl Runtime for Script {
    fn run<'a, DB: Database, SPEC: Spec>(
        machine: &mut Machine,
        host: &mut EVM<'a, DB, Self>,
    ) -> ExitReason {
        let code = machine.contract.code.to_vec();
        let address = machine.contract.address;
        let mut pc = 0;
        while pc < code.len() {
            match code[pc] {
                STOP => return ExitReason::Succeed(ExitSucceed::Stopped),
                USE_GAS => {
                    if !machine.gas.record_cost(code[pc + 1] as u64 * 100) {
                        return ExitReason::Error(ExitError::OutOfGas);
                    }
                    pc += 2;
                }
                STORE => {
                    host.sstore(address, word(code[pc + 1]), word(code[pc + 2]));
                    pc += 3;
                }
                LOG => {
                    host.log(address, vec![word(code[pc + 1])], Bytes::from(vec![code[pc + 1]]));
                    pc += 2;
                }
                CALL => {
                    let target = account(code[pc + 1]);
                    let value = U256::from_u64(code[pc + 2] as u64);
                    let context =
                        CallContext { address: target, caller: address, apparent_value: value };
                    let transfer = Some(Transfer { source: address, target, value });
                    let left = machine.gas.remaining();
                    let (_, gas, output) = <EVM<'a, DB, Self> as Handler>::call::<SPEC>(
                        host,
                        target,
                        transfer,
                        Bytes::new(),
                        left,
                        context,
                    );
                    machine.gas.record_cost(gas.all_used());
                    machine.output = output;
                    pc += 3;
                }
                CALL_SELF => {
                    let context = CallContext {
                        address,
                        caller: address,
                        apparent_value: U256::zero(),
                    };
                    let left = machine.gas.remaining();
                    let (reason, _, _) = <EVM<'a, DB, Self> as Handler>::call::<SPEC>(
                        host,
                        address,
                        None,
                        Bytes::new(),
                        left,
                        context,
                    );
                    if reason == ExitReason::Error(ExitError::CallTooDeep) {
                        machine.output = Bytes::from(vec![0xdd]);
                    }
                    return ExitReason::Succeed(ExitSucceed::Returned);
                }
                REVERT => return ExitReason::Revert(ExitRevert::Reverted),
                FAIL => return ExitReason::Error(ExitError::InvalidOpCode),
                RETURN => {
                    machine.output = Bytes::from(vec![0xee; code[pc + 1] as usize]);
                    return ExitReason::Succeed(ExitSucceed::Returned);
                }
                REFUND => {
                    machine.gas.refunded += code[pc + 1] as i8 as i64 * 1000;
                    pc += 2;
                }
                DESTROY => {
                    host.selfdestruct(address, account(code[pc + 1]));
                    return ExitReason::Succeed(ExitSucceed::SelfDestructed);
                }
                GIVE_UP => return ExitReason::Fatal(ExitFatal::NotSupported),
                CREATE => {
                    let len = code[pc + 1] as usize;
                    let init = Bytes::from(code[pc + 2..pc + 2 + len].to_vec());
                    let left = machine.gas.remaining();
                    let (_, _, gas, _) = <EVM<'a, DB, Self> as Handler>::create::<SPEC>(
                        host,
                        address,
                        CreateScheme::Create,
                        U256::zero(),
                        init,
                        left,
                    );
                    machine.gas.record_cost(gas.all_used());
                    pc += 2 + len;
                }
                _ => return ExitReason::Error(ExitError::InvalidOpCode),
            }
        }
        ExitReason::Succeed(ExitSucceed::Stopped)
    }

    /// Function 4 copies its input and logs its length; others fail.
    fn run_precompile(
        precompile: Precompile,
        input: &[u8],
        _gas_limit: u64,
        context: &CallContext,
        _is_static: bool,
    ) -> PrecompileResult {
        if precompile.function == 4 {
            Ok(PrecompileOutput {
                output: input.to_vec(),
                cost: 15 + input.len() as u64,
                logs: vec![Log {
                    address: context.address,
                    topics: vec![],
                    data: Bytes::from(vec![input.len() as u8]),
                }],
            })
        } else {
            Err(ExitError::PrecompileFailed)
        }
    }
}

/// Rules with a small stack and no limit on code.
struct Shallow;

impl Spec for Shallow {
    const GAS_TRANSACTION_CREATE: u64 = 10;
    const GAS_TRANSACTION_CALL: u64 = 5;
    const GAS_TRANSACTION_ZERO_DATA: u64 = 0;
    const GAS_TRANSACTION_NON_ZERO_DATA: u64 = 0;
    const GAS_ACCESS_LIST_ADDRESS: u64 = 0;
    const GAS_ACCESS_LIST_STORAGE_KEY: u64 = 0;
    const CALL_STACK_LIMIT: u64 = 3;
    const CREATE_INCREASE_NONCE: bool = false;
    const IS_STATIC_CALL: bool = false;

    fn create_contract_limit() -> Option<usize> {
        None
    }

    fn precompiles() -> Precompiles {
        Precompiles::new()
    }
}

impl NotStaticSpec for Shallow {}

fn low(last: u8) -> H160 {
    let mut bytes = [0; 20];
    bytes[19] = last;
    H160(bytes)
}

fn account(n: u8) -> H160 {
    H160([n; 20])
}

fn word(n: u8) -> H256 {
    let mut bytes = [0; 32];
    bytes[31] = n;
    H256(bytes)
}

fn sender() -> H160 {
    account(0xaa)
}

fn coinbase() -> H160 {
    account(0xcb)
}

fn env(gas_price: u64) -> GlobalEnv {
    GlobalEnv {
        gas_price: U256::from_u64(gas_price),
        origin: sender(),
        chain_id: U256::from_u64(1),
        block_number: U256::from_u64(2),
        block_coinbase: coinbase(),
        block_timestamp: U256::from_u64(3),
        block_difficulty: U256::from_u64(4),
        block_gas_limit: U256::from_u64(5),
    }
}

fn holder(balance: u64, nonce: u64) -> AccountInfo {
    AccountInfo {
        balance: U256::from_u64(balance),
        nonce,
        code_hash: H256::zero(),
        code: Some(Bytes::new()),
    }
}

fn contract(balance: u64, code: &[u8]) -> AccountInfo {
    AccountInfo {
        balance: U256::from_u64(balance),
        nonce: 1,
        code_hash: keccak_hash(code),
        code: None,
    }
}

fn funded() -> MemoryDb {
    MemoryDb::new().with_account(sender(), holder(1_000_000, 7))
}

fn with_contract(db: MemoryDb, address: H160, balance: u64, code: &[u8]) -> MemoryDb {
    db.with_account(address, contract(balance, code))
        .with_code(keccak_hash(code), Bytes::from(code.to_vec()))
}

fn balance(state: &State, address: H160) -> U256 {
    state.get(&address).unwrap().info.balance
}

fn nonce(state: &State, address: H160) -> u64 {
    state.get(&address).unwrap().info.nonce
}

fn run_call(
    db: &mut MemoryDb,
    address: H160,
    value: u64,
    data: &[u8],
    gas_limit: u64,
) -> (ExitReason, Bytes, u64, State) {
    let mut evm: EVM<MemoryDb, Script> = EVM::new(db, env(1));
    evm.call::<BerlinSpec>(
        sender(),
        address,
        U256::from_u64(value),
        Bytes::from(data.to_vec()),
        gas_limit,
        vec![],
    )
}

#[test]
fn plain_transfer_pays_value_and_gas() {
    let mut db = funded();
    let mut evm: EVM<MemoryDb, TransferRuntime> = EVM::new(&mut db, env(2));
    let (reason, output, spent, state) = evm.call::<BerlinSpec>(
        sender(),
        account(0x10),
        U256::from_u64(100),
        Bytes::new(),
        30_000,
        vec![],
    );
    assert_eq!(reason, ExitReason::Succeed(ExitSucceed::Stopped));
    assert!(output.is_empty());
    assert_eq!(spent, 21_000);
    assert_eq!(balance(&state, sender()), U256::from_u64(1_000_000 - 100 - 42_000));
    assert_eq!(nonce(&state, sender()), 8);
    assert_eq!(balance(&state, account(0x10)), U256::from_u64(100));
    assert_eq!(balance(&state, coinbase()), U256::from_u64(42_000));
}

#[test]
fn transfer_runtime_supports_no_code() {
    let mut db = with_contract(funded(), account(0x10), 0, &[STOP]);
    let mut evm: EVM<MemoryDb, TransferRuntime> = EVM::new(&mut db, env(1));
    let (reason, _, spent, state) = evm.call::<BerlinSpec>(
        sender(),
        account(0x10),
        U256::from_u64(5),
        Bytes::new(),
        30_000,
        vec![],
    );
    assert_eq!(reason, ExitReason::Fatal(ExitFatal::NotSupported));
    assert_eq!(spent, 21_000);
    assert!(state.get(&account(0x10)).unwrap().info.balance == U256::zero());
    let (reason, _, spent, _) = evm.call::<BerlinSpec>(
        sender(),
        low(2),
        U256::zero(),
        Bytes::new(),
        30_000,
        vec![],
    );
    assert_eq!(reason, ExitReason::Error(ExitError::PrecompileFailed));
    assert_eq!(spent, 30_000);
}

#[test]
fn too_little_gas_for_the_transaction_costs_nothing() {
    let mut db = funded();
    let (reason, output, spent, state) = run_call(&mut db, account(0x10), 1, &[], 20_999);
    assert_eq!(reason, ExitReason::Error(ExitError::OutOfGas));
    assert!(output.is_empty());
    assert_eq!(spent, 0);
    assert!(state.get(&sender()).is_none());
}

#[test]
fn exactly_enough_gas_runs() {
    let mut db = funded();
    let (reason, _, spent, _) = run_call(&mut db, account(0x10), 1, &[], 21_000);
    assert_eq!(reason, ExitReason::Succeed(ExitSucceed::Stopped));
    assert_eq!(spent, 21_000);
}

#[test]
fn data_and_access_list_cost_gas() {
    let mut db = funded();
    let mut evm: EVM<MemoryDb, Script> = EVM::new(&mut db, env(1));
    let (_, _, spent, state) = evm.call::<BerlinSpec>(
        sender(),
        account(0x10),
        U256::zero(),
        Bytes::from(vec![0, 0, 1, 2, 3]),
        100_000,
        vec![(account(0x20), vec![word(1), word(2)]), (account(0x21), vec![])],
    );
    assert_eq!(spent, 21_000 + 2 * 4 + 3 * 16 + 2 * 2_400 + 2 * 1_900);
    assert!(state.get(&account(0x20)).unwrap().storage.contains_key(&word(1)));
    assert!(state.get(&account(0x20)).unwrap().storage.contains_key(&word(2)));
    assert!(!state.get(&account(0x20)).unwrap().storage.contains_key(&word(3)));
    assert!(state.contains_key(&account(0x21)));
    for last in 1..10 {
        assert!(state.contains_key(&low(last)));
    }
    assert!(!state.contains_key(&low(10)));
}

#[test]
fn static_rules_charge_the_same() {
    let mut db = funded();
    let mut evm: EVM<MemoryDb, Script> = EVM::new(&mut db, env(1));
    let (_, _, spent, _) = evm.call::<BerlinStaticSpec>(
        sender(),
        account(0x10),
        U256::zero(),
        Bytes::from(vec![0, 7]),
        100_000,
        vec![],
    );
    assert_eq!(spent, 21_020);
    match &evm.take_trace()[0] {
        TraceEvent::Call { is_static, .. } => assert!(*is_static),
        _ => panic!("no call was reported"),
    }
}

#[test]
fn contract_code_is_fetched_and_run() {
    let code = [USE_GAS, 3, STORE, 1, 9, RETURN, 2];
    let mut db = with_contract(funded(), account(0x10), 0, &code);
    let (reason, output, spent, state) = run_call(&mut db, account(0x10), 4, &[], 50_000);
    assert_eq!(reason, ExitReason::Succeed(ExitSucceed::Returned));
    assert_eq!(output.as_ref(), &[0xee, 0xee]);
    assert_eq!(spent, 21_300);
    let account = state.get(&account(0x10)).unwrap();
    assert_eq!(account.storage.get(&word(1)).unwrap().present, word(9));
    assert_eq!(account.storage.get(&word(1)).unwrap().original, word(0));
    assert_eq!(account.info.balance, U256::from_u64(4));
}

#[test]
fn error_takes_all_gas_and_undoes_the_call() {
    let code = [USE_GAS, 3, STORE, 1, 9, FAIL];
    let mut db = with_contract(funded(), account(0x10), 6, &code);
    let (reason, output, spent, state) = run_call(&mut db, account(0x10), 4, &[], 50_000);
    assert_eq!(reason, ExitReason::Error(ExitError::InvalidOpCode));
    assert!(output.is_empty());
    assert_eq!(spent, 50_000);
    assert_eq!(nonce(&state, sender()), 8);
    assert_eq!(balance(&state, sender()), U256::from_u64(950_000));
    assert_eq!(balance(&state, coinbase()), U256::from_u64(50_000));
    let account = state.get(&account(0x10)).unwrap();
    assert_eq!(account.info.balance, U256::from_u64(6));
    assert!(!account.storage.contains_key(&word(1)));
}

#[test]
fn revert_undoes_the_call_but_keeps_the_unused_gas() {
    let code = [USE_GAS, 3, STORE, 1, 9, REVERT];
    let mut db = with_contract(funded(), account(0x10), 6, &code);
    let (reason, _, spent, state) = run_call(&mut db, account(0x10), 4, &[], 50_000);
    assert_eq!(reason, ExitReason::Revert(ExitRevert::Reverted));
    assert_eq!(spent, 21_300);
    assert_eq!(balance(&state, account(0x10)), U256::from_u64(6));
    assert!(!state.get(&account(0x10)).unwrap().storage.contains_key(&word(1)));
}

#[test]
fn fatal_exit_undoes_the_call() {
    let code = [STORE, 1, 9, GIVE_UP];
    let mut db = with_contract(funded(), account(0x10), 6, &code);
    let (reason, _, spent, state) = run_call(&mut db, account(0x10), 4, &[], 50_000);
    assert_eq!(reason, ExitReason::Fatal(ExitFatal::NotSupported));
    assert_eq!(spent, 21_000);
    assert!(!state.get(&account(0x10)).unwrap().storage.contains_key(&word(1)));
}

#[test]
fn running_out_of_gas_is_an_error() {
    let code = [USE_GAS, 255];
    let mut db = with_contract(funded(), account(0x10), 0, &code);
    let (reason, _, spent, _) = run_call(&mut db, account(0x10), 0, &[], 46_499);
    assert_eq!(reason, ExitReason::Error(ExitError::OutOfGas));
    assert_eq!(spent, 46_499);
    let mut db = with_contract(funded(), account(0x10), 0, &code);
    let (reason, _, spent, _) = run_call(&mut db, account(0x10), 0, &[], 46_500);
    assert_eq!(reason, ExitReason::Succeed(ExitSucceed::Stopped));
    assert_eq!(spent, 46_500);
}

#[test]
fn value_that_is_not_there_cannot_be_sent() {
    let mut db = funded();
    let (reason, _, spent, state) = run_call(&mut db, account(0x10), 1_000_001, &[], 30_000);
    assert_eq!(reason, ExitReason::Error(ExitError::OutOfFund));
    assert_eq!(spent, 30_000);
    assert_eq!(balance(&state, sender()), U256::from_u64(970_000));
    assert_eq!(nonce(&state, sender()), 8);
}

#[test]
fn value_that_does_not_fit_cannot_be_received() {
    let mut full = holder(0, 0);
    full.balance = U256::max();
    let mut db = funded().with_account(account(0x10), full);
    let (reason, _, _, state) = run_call(&mut db, account(0x10), 1, &[], 30_000);
    assert_eq!(reason, ExitReason::Error(ExitError::OverflowPayment));
    assert_eq!(balance(&state, account(0x10)), U256::max());
}

#[test]
fn sender_can_pay_itself() {
    let mut db = funded();
    let (reason, _, spent, state) = run_call(&mut db, sender(), 1_000_000, &[], 21_000);
    assert_eq!(reason, ExitReason::Succeed(ExitSucceed::Stopped));
    assert_eq!(balance(&state, sender()), U256::from_u64(1_000_000 - spent));
}

#[test]
fn gas_that_cannot_be_paid_is_not_taken() {
    let mut db = MemoryDb::new().with_account(sender(), holder(10, 0));
    let (reason, _, spent, state) = run_call(&mut db, account(0x10), 1, &[], 30_000);
    assert_eq!(reason, ExitReason::Succeed(ExitSucceed::Stopped));
    assert_eq!(spent, 21_000);
    assert_eq!(balance(&state, sender()), U256::from_u64(9));
    assert_eq!(balance(&state, coinbase()), U256::zero());
}

#[test]
fn refund_is_taken_off_the_charge() {
    let code = [USE_GAS, 10, REFUND, 5, STOP];
    let mut db = with_contract(funded(), account(0x10), 0, &code);
    let (_, _, spent, _) = run_call(&mut db, account(0x10), 0, &[], 50_000);
    assert_eq!(spent, 22_000 - 5_000);
}

#[test]
fn refund_is_at_most_half() {
    let code = [USE_GAS, 10, REFUND, 100, STOP];
    let mut db = with_contract(funded(), account(0x10), 0, &code);
    let (_, _, spent, _) = run_call(&mut db, account(0x10), 0, &[], 50_000);
    assert_eq!(spent, 11_000);
}

#[test]
fn negative_refund_counts_as_a_large_one() {
    let code = [USE_GAS, 10, REFUND, 0xff, STOP];
    let mut db = with_contract(funded(), account(0x10), 0, &code);
    let (_, _, spent, _) = run_call(&mut db, account(0x10), 0, &[], 50_000);
    assert_eq!(spent, 11_000);
}

#[test]
fn failed_transaction_is_refunded_too() {
    let code = [REFUND, 2, FAIL];
    let mut db = with_contract(funded(), account(0x10), 0, &code);
    let (reason, _, spent, _) = run_call(&mut db, account(0x10), 0, &[], 50_000);
    assert_eq!(reason, ExitReason::Error(ExitError::InvalidOpCode));
    assert_eq!(spent, 48_000);
}

#[test]
fn precompile_runs_in_place_of_code() {
    let mut db = funded();
    let (reason, output, spent, state) = run_call(&mut db, low(4), 3, &[1, 2], 30_000);
    assert_eq!(reason, ExitReason::Succeed(ExitSucceed::Returned));
    assert_eq!(output.as_ref(), &[1, 2]);
    assert_eq!(spent, 21_032 + 17);
    assert_eq!(balance(&state, low(4)), U256::from_u64(3));
}

#[test]
fn precompile_that_is_too_dear_costs_nothing() {
    let mut db = funded();
    let (reason, output, spent, _) = run_call(&mut db, low(4), 0, &[1, 2], 21_048);
    assert_eq!(reason, ExitReason::Succeed(ExitSucceed::Returned));
    assert_eq!(output.as_ref(), &[1, 2]);
    assert_eq!(spent, 21_032);
}

#[test]
fn failed_precompile_undoes_the_transfer() {
    let mut db = funded();
    let (reason, output, spent, state) = run_call(&mut db, low(3), 3, &[], 30_000);
    assert_eq!(reason, ExitReason::Error(ExitError::PrecompileFailed));
    assert!(output.is_empty());
    assert_eq!(spent, 30_000);
    assert_eq!(balance(&state, low(3)), U256::zero());
}

#[test]
fn inner_failure_is_undone_while_the_outer_call_stays() {
    let inner = [STORE, 1, 1, FAIL];
    let outer = [STORE, 2, 2, CALL, 0x11, 5, STORE, 3, 3, STOP];
    let db = with_contract(funded(), account(0x10), 50, &outer);
    let mut db = with_contract(db, account(0x11), 0, &inner);
    let (reason, _, _, state) = run_call(&mut db, account(0x10), 0, &[], 50_000);
    assert_eq!(reason, ExitReason::Succeed(ExitSucceed::Stopped));
    let outer = state.get(&account(0x10)).unwrap();
    assert_eq!(outer.info.balance, U256::from_u64(50));
    assert_eq!(outer.storage.get(&word(2)).unwrap().present, word(2));
    assert_eq!(outer.storage.get(&word(3)).unwrap().present, word(3));
    let inner = state.get(&account(0x11)).unwrap();
    assert_eq!(inner.info.balance, U256::zero());
    assert!(!inner.storage.contains_key(&word(1)));
}

#[test]
fn inner_success_is_undone_with_the_outer_call() {
    let inner = [STORE, 1, 1, STOP];
    let outer = [CALL, 0x11, 5, REVERT];
    let db = with_contract(funded(), account(0x10), 50, &outer);
    let mut db = with_contract(db, account(0x11), 0, &inner);
    let (reason, _, _, state) = run_call(&mut db, account(0x10), 0, &[], 50_000);
    assert_eq!(reason, ExitReason::Revert(ExitRevert::Reverted));
    assert_eq!(balance(&state, account(0x10)), U256::from_u64(50));
    assert!(!state.contains_key(&account(0x11)));
}

#[test]
fn self_destruction_moves_the_balance() {
    let code = [DESTROY, 0x12];
    let mut db = with_contract(funded(), account(0x10), 50, &code);
    let (reason, _, _, state) = run_call(&mut db, account(0x10), 3, &[], 50_000);
    assert_eq!(reason, ExitReason::Succeed(ExitSucceed::SelfDestructed));
    assert_eq!(balance(&state, account(0x12)), U256::from_u64(53));
    assert_eq!(balance(&state, account(0x10)), U256::zero());
    assert!(state.get(&account(0x10)).unwrap().destroyed);
}

#[test]
fn calls_that_nest_too_deeply_are_refused() {
    let code = [CALL_SELF];
    let mut db = with_contract(funded(), account(0x10), 0, &code);
    let mut evm: EVM<MemoryDb, Script> = EVM::new(&mut db, env(1));
    let (reason, _, spent, _) = evm.call::<Shallow>(
        sender(),
        account(0x10),
        U256::zero(),
        Bytes::new(),
        1_000,
        vec![],
    );
    assert_eq!(reason, ExitReason::Succeed(ExitSucceed::Returned));
    assert_eq!(spent, 5);
    // three calls run, and a fourth is tried
    assert_eq!(evm.take_trace().len(), 4);
}

#[test]
fn refused_call_leaves_its_checkpoint_open() {
    let mut db = funded();
    let mut evm: EVM<MemoryDb, Script> = EVM::new(&mut db, env(1));
    let context =
        CallContext { address: account(1), caller: sender(), apparent_value: U256::zero() };
    for _ in 0..3 {
        match evm.call_enter::<Shallow>(account(1), None, &Bytes::new(), 10, &context) {
            CallStep::Run(_, _) => {}
            _ => panic!("the call should have been allowed"),
        }
    }
    for _ in 0..2 {
        match evm.call_enter::<Shallow>(account(1), None, &Bytes::new(), 10, &context) {
            CallStep::Ended(reason, gas) => {
                assert_eq!(reason, ExitReason::Error(ExitError::CallTooDeep));
                assert_eq!(gas, Gas::default());
            }
            _ => panic!("the call should have been refused"),
        }
    }
    match evm.create_enter::<Shallow>(
        sender(),
        CreateScheme::Create,
        U256::zero(),
        &Bytes::new(),
        10,
    ) {
        CreateStep::Ended(reason, gas) => {
            assert_eq!(reason, ExitReason::Error(ExitError::CallTooDeep));
            assert_eq!(gas, Gas::new(10));
        }
        _ => panic!("the creation should have been refused"),
    }
}

#[test]
fn call_is_finished_by_its_exit_reason() {
    let code = [STOP];
    let mut db = with_contract(funded(), account(0x10), 0, &code);
    let mut evm: EVM<MemoryDb, Script> = EVM::new(&mut db, env(1));
    let context =
        CallContext { address: account(0x10), caller: sender(), apparent_value: U256::zero() };
    let input = Bytes::from(vec![1]);
    let (machine, checkpoint) =
        match evm.call_enter::<BerlinSpec>(account(0x10), None, &input, 77, &context) {
            CallStep::Run(machine, checkpoint) => (machine, checkpoint),
            _ => panic!("a machine should run"),
        };
    assert_eq!(machine.contract.code.as_ref(), &code);
    assert_eq!(machine.contract.input.as_ref(), &[1]);
    assert_eq!(machine.contract.address, account(0x10));
    assert_eq!(machine.contract.caller, sender());
    assert_eq!(machine.gas, Gas::new(77));
    evm.sstore(account(0x10), word(1), word(5));
    let reason = ExitReason::Revert(ExitRevert::Reverted);
    let (ended, gas, output) = evm.call_exit(checkpoint, reason, machine);
    assert_eq!(ended, reason);
    assert_eq!(gas, Gas::new(77));
    assert!(output.is_empty());
    assert_eq!(evm.sload(account(0x10), word(1)), (word(0), true));
}

fn run_create(
    db: &mut MemoryDb,
    value: u64,
    init_code: &[u8],
    scheme: CreateScheme,
    gas_limit: u64,
) -> (ExitReason, Option<H160>, u64, State) {
    let mut evm: EVM<MemoryDb, Script> = EVM::new(db, env(1));
    evm.create::<BerlinSpec>(
        sender(),
        U256::from_u64(value),
        Bytes::from(init_code.to_vec()),
        scheme,
        gas_limit,
        vec![],
    )
}

#[test]
fn creation_stores_the_returned_code() {
    let init = [STORE, 1, 4, RETURN, 10];
    let mut db = funded();
    let (reason, address, spent, state) =
        run_create(&mut db, 20, &init, CreateScheme::Create, 60_000);
    assert_eq!(reason, ExitReason::Succeed(ExitSucceed::Returned));
    let address = address.unwrap();
    assert_eq!(address, create_address(sender(), 7));
    assert_eq!(spent, 53_000 + 5 * 16 + 10 * 200);
    let created = state.get(&address).unwrap();
    assert_eq!(created.info.code.as_ref().unwrap().as_ref(), &[0xee; 10]);
    assert_eq!(created.info.code_hash, keccak_hash(&init));
    assert_eq!(created.info.nonce, 1);
    assert_eq!(created.info.balance, U256::from_u64(20));
    assert!(created.created);
    assert_eq!(created.storage.get(&word(1)).unwrap().present, word(4));
    assert_eq!(nonce(&state, sender()), 8);
}

#[test]
fn creation_with_a_salt_does_not_depend_on_the_nonce() {
    let init = [RETURN, 1];
    let scheme = CreateScheme::Create2 { salt: word(3) };
    let mut db = funded();
    let (_, first, _, _) = run_create(&mut db, 0, &init, scheme, 60_000);
    let mut db = MemoryDb::new().with_account(sender(), holder(1_000_000, 70));
    let (_, second, _, _) = run_create(&mut db, 0, &init, scheme, 60_000);
    assert_eq!(first, second);
    assert_eq!(first, Some(create2_address(sender(), keccak_hash(&init), word(3))));
}

#[test]
fn creation_without_a_first_nonce() {
    let mut db = funded();
    let mut evm: EVM<MemoryDb, Script> = EVM::new(&mut db, env(1));
    let (reason, address, spent, state) = evm.create::<Shallow>(
        sender(),
        U256::zero(),
        Bytes::from(vec![RETURN, 3]),
        CreateScheme::Create,
        1_000,
        vec![],
    );
    assert_eq!(reason, ExitReason::Succeed(ExitSucceed::Returned));
    assert_eq!(spent, 610);
    assert_eq!(nonce(&state, address.unwrap()), 0);
}

#[test]
fn creation_needs_gas_for_the_code() {
    let mut db = funded();
    let (reason, address, spent, state) =
        run_create(&mut db, 20, &[RETURN, 10], CreateScheme::Create, 55_031);
    assert_eq!(reason, ExitReason::Error(ExitError::OutOfGas));
    assert_eq!(address, None);
    assert_eq!(spent, 55_031);
    assert!(!state.contains_key(&create_address(sender(), 7)));
    assert_eq!(nonce(&state, sender()), 8);
    let mut db = funded();
    let (reason, _, spent, _) =
        run_create(&mut db, 20, &[RETURN, 10], CreateScheme::Create, 55_032);
    assert_eq!(reason, ExitReason::Succeed(ExitSucceed::Returned));
    assert_eq!(spent, 55_032);
}

#[test]
fn too_little_gas_for_a_creating_transaction() {
    let mut db = funded();
    let (reason, address, spent, state) =
        run_create(&mut db, 0, &[], CreateScheme::Create, 52_999);
    assert_eq!(reason, ExitReason::Error(ExitError::OutOfGas));
    assert_eq!(address, None);
    assert_eq!(spent, 0);
    assert!(state.get(&sender()).is_none());
}

#[test]
fn creation_with_too_much_code_fails() {
    let mut db = funded();
    let mut evm: EVM<MemoryDb, Script> = EVM::new(&mut db, env(1));
    for (len, fits) in [(0x6000usize, true), (0x6001usize, false)] {
        let step = evm.create_enter::<BerlinSpec>(
            sender(),
            CreateScheme::Create,
            U256::zero(),
            &Bytes::from(vec![len as u8]),
            10_000_000,
        );
        let (mut machine, checkpoint, address, code_hash) = match step {
            CreateStep::Run(machine, checkpoint, address, code_hash) => {
                (machine, checkpoint, address, code_hash)
            }
            CreateStep::Ended(_, _) => panic!("the creation should have been allowed"),
        };
        machine.output = Bytes::from(vec![1; len]);
        let (reason, created, gas, output) = evm.create_exit::<BerlinSpec>(
            checkpoint,
            address,
            code_hash,
            ExitReason::Succeed(ExitSucceed::Returned),
            machine,
        );
        assert!(output.is_empty());
        if fits {
            assert_eq!(reason, ExitReason::Succeed(ExitSucceed::Returned));
            assert_eq!(created, Some(address));
            assert_eq!(gas.all_used(), 0x6000 * 200);
        } else {
            assert_eq!(reason, ExitReason::Error(ExitError::CreateContractLimit));
            assert_eq!(created, None);
            assert_eq!(gas.all_used(), 0);
        }
    }
}

#[test]
fn creation_at_a_taken_address_fails() {
    for taken in [holder(0, 1), contract(0, &[STOP])] {
        let mut db = funded()
            .with_code(keccak_hash(&[STOP]), Bytes::from(vec![STOP]))
            .with_account(create_address(sender(), 7), taken);
        let (reason, address, spent, state) =
            run_create(&mut db, 20, &[RETURN, 1], CreateScheme::Create, 60_000);
        assert_eq!(reason, ExitReason::Error(ExitError::CreateCollision));
        assert_eq!(address, None);
        assert_eq!(spent, 60_000);
        assert_eq!(nonce(&state, sender()), 8);
        assert_eq!(balance(&state, sender()), U256::from_u64(940_000));
    }
}

#[test]
fn creation_on_an_account_with_value_only_succeeds() {
    let place = create_address(sender(), 7);
    let mut db = funded().with_account(place, holder(5, 0));
    let (reason, address, _, state) =
        run_create(&mut db, 20, &[RETURN, 1], CreateScheme::Create, 60_000);
    assert_eq!(reason, ExitReason::Succeed(ExitSucceed::Returned));
    assert_eq!(address, Some(place));
    assert_eq!(balance(&state, place), U256::from_u64(25));
}

#[test]
fn creation_that_cannot_be_funded_fails_before_the_nonce_rises() {
    let mut db = funded();
    let (reason, address, spent, state) =
        run_create(&mut db, 1_000_001, &[RETURN, 1], CreateScheme::Create, 60_000);
    assert_eq!(reason, ExitReason::Error(ExitError::OutOfFund));
    assert_eq!(address, None);
    assert_eq!(spent, 60_000);
    assert_eq!(nonce(&state, sender()), 7);
}

#[test]
fn creation_that_would_overflow_a_balance_fails() {
    let mut full = holder(0, 0);
    full.balance = U256::max();
    let place = create_address(sender(), 7);
    let mut db = funded().with_account(place, full);
    let (reason, address, _, state) =
        run_create(&mut db, 1, &[RETURN, 1], CreateScheme::Create, 60_000);
    assert_eq!(reason, ExitReason::Error(ExitError::OverflowPayment));
    assert_eq!(address, None);
    assert_eq!(nonce(&state, sender()), 8);
}

#[test]
fn reverted_creation_leaves_only_the_nonce() {
    for (end, reason, spent) in [
        (REVERT, ExitReason::Revert(ExitRevert::Reverted), 53_064),
        (FAIL, ExitReason::Error(ExitError::InvalidOpCode), 60_000),
        (GIVE_UP, ExitReason::Fatal(ExitFatal::NotSupported), 53_064),
    ] {
        let mut db = funded();
        let (ended, address, charged, state) =
            run_create(&mut db, 20, &[STORE, 1, 1, end], CreateScheme::Create, 60_000);
        assert_eq!(ended, reason);
        assert_eq!(address, None);
        assert_eq!(charged, spent);
        assert_eq!(nonce(&state, sender()), 8);
        assert_eq!(balance(&state, sender()), U256::from_u64(1_000_000 - spent));
        assert!(!state.contains_key(&create_address(sender(), 7)));
    }
}

#[test]
fn contract_creates_a_contract() {
    let code = [CREATE, 2, RETURN, 1, STOP];
    let mut db = with_contract(funded(), account(0x10), 0, &code);
    let (_, _, spent, state) = run_call(&mut db, account(0x10), 0, &[], 50_000);
    let place = create_address(account(0x10), 1);
    assert_eq!(spent, 21_200);
    assert_eq!(nonce(&state, account(0x10)), 2);
    assert_eq!(state.get(&place).unwrap().info.code.as_ref().unwrap().as_ref(), &[0xee]);
}

#[test]
fn second_transaction_starts_afresh() {
    let code = [STORE, 1, 9, STOP];
    let mut db = with_contract(funded(), account(0x10), 0, &code);
    let mut evm: EVM<MemoryDb, Script> = EVM::new(&mut db, env(1));
    for _ in 0..2 {
        let (_, _, spent, state) = evm.call::<BerlinSpec>(
            sender(),
            account(0x10),
            U256::from_u64(1),
            Bytes::new(),
            50_000,
            vec![],
        );
        assert_eq!(spent, 21_000);
        assert_eq!(nonce(&state, sender()), 8);
        assert_eq!(balance(&state, account(0x10)), U256::from_u64(1));
    }
}

#[test]
fn handler_answers_from_the_state() {
    let code = [STOP, STOP, STOP];
    let mut db = with_contract(funded(), account(0x10), 50, &code)
        .with_storage(account(0x10), word(1), word(8))
        .with_block_hash(U256::from_u64(6), word(66));
    let mut evm: EVM<MemoryDb, Script> = EVM::new(&mut db, env(9));
    assert_eq!(evm.load_account(account(0x10)), (true, true));
    assert_eq!(evm.load_account(account(0x10)), (false, true));
    assert_eq!(evm.load_account(account(0x77)), (true, false));
    assert_eq!(evm.balance(account(0x10)), (U256::from_u64(50), false));
    assert_eq!(evm.balance(sender()), (U256::from_u64(1_000_000), true));
    assert_eq!(evm.code(account(0x10)), (Bytes::from(code.to_vec()), false));
    assert_eq!(evm.code_size(account(0x10)), (U256::from_u64(3), false));
    assert_eq!(evm.code_size(account(0x78)), (U256::zero(), true));
    assert_eq!(evm.code_hash(account(0x10)), (keccak_hash(&code), false));
    assert_eq!(evm.code_hash(account(0x10)).0, keccak_hash(&[0, 0, 0]));
    assert_eq!(evm.code_hash(account(0x77)), (H256::zero(), true));
    assert_eq!(evm.sload(account(0x10), word(1)), (word(8), true));
    assert_eq!(evm.sload(account(0x10), word(1)), (word(8), false));
    assert_eq!(
        evm.sstore(account(0x10), word(1), word(9)),
        (word(8), word(8), word(9), false)
    );
    assert_eq!(
        evm.sstore(account(0x10), word(1), word(10)),
        (word(8), word(9), word(10), false)
    );
    assert_eq!(
        evm.sstore(account(0x10), word(2), word(1)),
        (word(0), word(0), word(1), true)
    );
    assert_eq!(evm.sload(account(0x10), word(1)), (word(10), false));
    assert_eq!(evm.block_hash(U256::from_u64(6)), word(66));
    assert_eq!(evm.block_hash(U256::from_u64(7)), word(0));
    assert_eq!(evm.gas_price(), U256::from_u64(9));
    assert_eq!(evm.origin(), sender());
    assert_eq!(evm.chain_id(), U256::from_u64(1));
    assert_eq!(evm.block_number(), U256::from_u64(2));
    assert_eq!(evm.block_coinbase(), coinbase());
    assert_eq!(evm.block_timestamp(), U256::from_u64(3));
    assert_eq!(evm.block_difficulty(), U256::from_u64(4));
    assert_eq!(evm.block_gas_limit(), U256::from_u64(5));
    assert_eq!(evm.global_env().gas_price, U256::from_u64(9));
}

#[test]
fn self_destruction_reports_what_it_came_upon() {
    let mut db = funded().with_account(account(0x10), holder(5, 1));
    let mut evm: EVM<MemoryDb, Script> = EVM::new(&mut db, env(1));
    assert_eq!(
        evm.selfdestruct(account(0x10), account(0x11)),
        SelfDestructResult {
            had_value: true,
            exists: false,
            is_cold: true,
            previously_destroyed: false,
        }
    );
    assert_eq!(
        evm.selfdestruct(account(0x10), account(0x11)),
        SelfDestructResult {
            had_value: false,
            exists: true,
            is_cold: false,
            previously_destroyed: true,
        }
    );
    assert_eq!(evm.balance(account(0x11)).0, U256::from_u64(5));
    evm.selfdestruct(account(0x11), account(0x11));
    assert_eq!(evm.balance(account(0x11)).0, U256::zero());
    assert_eq!(
        SelfDestructResult::default(),
        SelfDestructResult {
            had_value: false,
            exists: false,
            is_cold: false,
            previously_destroyed: false,
        }
    );
}

#[test]
fn self_destruction_caps_the_balance() {
    let mut full = holder(0, 1);
    full.balance = U256::max();
    let mut db = funded().with_account(account(0x11), full);
    let mut evm: EVM<MemoryDb, Script> = EVM::new(&mut db, env(1));
    evm.selfdestruct(sender(), account(0x11));
    assert_eq!(evm.balance(account(0x11)).0, U256::max());
}

#[test]
fn calls_and_creations_are_reported() {
    let mut db = funded();
    let mut evm: EVM<MemoryDb, Script> = EVM::new(&mut db, env(1));
    evm.call::<BerlinSpec>(
        sender(),
        account(0x10),
        U256::from_u64(3),
        Bytes::from(vec![1, 2]),
        50_000,
        vec![],
    );
    let trace = evm.take_trace();
    assert_eq!(trace.len(), 1);
    match &trace[0] {
        TraceEvent::Call { call, context, transfer, input, is_static } => {
            assert_eq!(*call, account(0x10));
            assert_eq!(context.caller, sender());
            assert_eq!(context.address, account(0x10));
            assert_eq!(context.apparent_value, U256::from_u64(3));
            assert_eq!(
                *transfer,
                Some(Transfer {
                    source: sender(),
                    target: account(0x10),
                    value: U256::from_u64(3),
                })
            );
            assert_eq!(input.as_ref(), &[1, 2]);
            assert!(!is_static);
        }
        _ => panic!("no call was reported"),
    }
    assert!(evm.take_trace().is_empty());
    evm.create::<BerlinSpec>(
        sender(),
        U256::zero(),
        Bytes::from(vec![REFUND, 1, RETURN, 2]),
        CreateScheme::Create,
        60_000,
        vec![],
    );
    match &evm.take_trace()[0] {
        TraceEvent::CreateGas { gas_spend, charged, gas } => {
            assert_eq!(*gas_spend, 53_464);
            assert_eq!(*charged, 52_464);
            assert_eq!(gas.all_used(), 400);
            assert_eq!(gas.refunded(), 1_000);
            assert_eq!(gas.limit(), 60_000 - 53_064);
        }
        _ => panic!("no charge was reported"),
    }
}

#[test]
fn instructions_are_reported_with_the_memory_in_hexadecimal() {
    let mut db = funded();
    let mut evm: EVM<MemoryDb, Script> = EVM::new(&mut db, env(1));
    let contract =
        Contract::new(Bytes::new(), Bytes::new(), account(1), account(2), U256::zero());
    let mut machine = Machine::new(contract, 100);
    machine.gas.record_cost(30);
    machine.gas.refunded = -4;
    machine.memory.bytes = vec![0x00, 0x0f, 0xab];
    machine.stack.words = vec![U256::from_u64(6), U256::from_u64(7)];
    evm.trace_opcode(OpCode(0x55), &machine);
    let context =
        CallContext { address: account(1), caller: account(2), apparent_value: U256::zero() };
    evm.trace_call(account(3), &context, &None, &Bytes::from(vec![9]), true);
    let trace = evm.take_trace();
    match &trace[0] {
        TraceEvent::Instruction { opcode, remaining, refunded, stack, data } => {
            assert_eq!(*opcode, OpCode(0x55));
            assert_eq!(*remaining, 70);
            assert_eq!(*refunded, -4);
            assert_eq!(*stack, vec![U256::from_u64(6), U256::from_u64(7)]);
            assert_eq!(data, "000fab");
        }
        _ => panic!("no instruction was reported"),
    }
    match &trace[1] {
        TraceEvent::Call { call, transfer, input, is_static, .. } => {
            assert_eq!(*call, account(3));
            assert_eq!(*transfer, None);
            assert_eq!(input.as_ref(), &[9]);
            assert!(*is_static);
        }
        _ => panic!("no call was reported"),
    }
}

/// Rules with one built-in contract, at an address and with a function of its own.
struct Copying;

/// The same address, with another function.
struct Failing;

/// Rules whose prices are as high as they can be.
struct Dear;

impl Spec for Copying {
    const GAS_TRANSACTION_CREATE: u64 = 10;
    const GAS_TRANSACTION_CALL: u64 = 5;
    const GAS_TRANSACTION_ZERO_DATA: u64 = 0;
    const GAS_TRANSACTION_NON_ZERO_DATA: u64 = 0;
    const GAS_ACCESS_LIST_ADDRESS: u64 = 0;
    const GAS_ACCESS_LIST_STORAGE_KEY: u64 = 0;
    const CALL_STACK_LIMIT: u64 = 3;
    const CREATE_INCREASE_NONCE: bool = true;
    const IS_STATIC_CALL: bool = false;

    fn create_contract_limit() -> Option<usize> {
        None
    }

    fn precompiles() -> Precompiles {
        Precompiles::of(vec![Precompile { address: account(0x33), function: 4 }])
    }
}

impl Spec for Failing {
    const GAS_TRANSACTION_CREATE: u64 = 10;
    const GAS_TRANSACTION_CALL: u64 = 5;
    const GAS_TRANSACTION_ZERO_DATA: u64 = 0;
    const GAS_TRANSACTION_NON_ZERO_DATA: u64 = 0;
    const GAS_ACCESS_LIST_ADDRESS: u64 = 0;
    const GAS_ACCESS_LIST_STORAGE_KEY: u64 = 0;
    const CALL_STACK_LIMIT: u64 = 3;
    const CREATE_INCREASE_NONCE: bool = true;
    const IS_STATIC_CALL: bool = false;

    fn create_contract_limit() -> Option<usize> {
        None
    }

    fn precompiles() -> Precompiles {
        Precompiles::of(vec![Precompile { address: account(0x33), function: 3 }])
    }
}

impl Spec for Dear {
    const GAS_TRANSACTION_CREATE: u64 = u64::MAX;
    const GAS_TRANSACTION_CALL: u64 = u64::MAX - 1;
    const GAS_TRANSACTION_ZERO_DATA: u64 = 1;
    const GAS_TRANSACTION_NON_ZERO_DATA: u64 = u64::MAX;
    const GAS_ACCESS_LIST_ADDRESS: u64 = 1;
    const GAS_ACCESS_LIST_STORAGE_KEY: u64 = 1;
    const CALL_STACK_LIMIT: u64 = 3;
    const CREATE_INCREASE_NONCE: bool = true;
    const IS_STATIC_CALL: bool = false;

    fn create_contract_limit() -> Option<usize> {
        None
    }

    fn precompiles() -> Precompiles {
        Precompiles::new()
    }
}

impl NotStaticSpec for Dear {}

#[test]
fn rules_decide_what_runs_at_an_address() {
    let mut db = funded();
    let mut evm: EVM<MemoryDb, Script> = EVM::new(&mut db, env(1));
    let data = Bytes::from(vec![1, 2]);
    let (reason, output, spent, _) = evm.call::<Copying>(
        sender(),
        account(0x33),
        U256::zero(),
        data.clone(),
        100,
        vec![],
    );
    assert_eq!(reason, ExitReason::Succeed(ExitSucceed::Returned));
    assert_eq!(output.as_ref(), &[1, 2]);
    assert_eq!(spent, 22);
    let (reason, output, spent, _) = evm.call::<Failing>(
        sender(),
        account(0x33),
        U256::zero(),
        data,
        100,
        vec![],
    );
    assert_eq!(reason, ExitReason::Error(ExitError::PrecompileFailed));
    assert!(output.is_empty());
    assert_eq!(spent, 100);
}

#[test]
fn order_of_the_input_does_not_matter_for_its_price() {
    let list = |n: u8| vec![(account(n), vec![word(n)]), (account(n + 1), vec![])];
    let mut charges = vec![];
    for (data, n) in [(vec![0, 1, 0, 2], 0x20), (vec![2, 0, 0, 1], 0x30)] {
        let mut db = funded();
        let mut evm: EVM<MemoryDb, Script> = EVM::new(&mut db, env(1));
        let (_, _, spent, _) = evm.call::<BerlinSpec>(
            sender(),
            account(0x10),
            U256::zero(),
            Bytes::from(data),
            100_000,
            list(n),
        );
        charges.push(spent);
    }
    assert_eq!(charges[0], charges[1]);
    assert_eq!(charges[0], 21_000 + 8 + 32 + 4_800 + 1_900);
}

#[test]
fn creation_costs_its_base_price_more() {
    let mut db = funded();
    let (_, _, called, _) = run_call(&mut db, account(0x10), 0, &[STOP, STOP], 100_000);
    let mut db = funded();
    let (_, _, created, _) = run_create(&mut db, 0, &[STOP, STOP], CreateScheme::Create, 100_000);
    assert_eq!(created - called, 53_000 - 21_000);
}

#[test]
fn environment_is_constant() {
    let code = [STORE, 1, 9, LOG, 4, DESTROY, 0x12];
    let mut db = with_contract(funded(), account(0x10), 3, &code);
    let mut evm: EVM<MemoryDb, Script> = EVM::new(&mut db, env(2));
    evm.call::<BerlinSpec>(
        sender(),
        account(0x10),
        U256::zero(),
        Bytes::new(),
        50_000,
        vec![],
    );
    evm.create::<BerlinSpec>(
        sender(),
        U256::zero(),
        Bytes::from(vec![REVERT]),
        CreateScheme::Create,
        60_000,
        vec![],
    );
    evm.sstore(account(0x10), word(1), word(2));
    evm.selfdestruct(account(0x10), account(0x11));
    assert_eq!(evm.global_env().gas_price, U256::from_u64(2));
    assert_eq!(evm.global_env().origin, sender());
    assert_eq!(evm.global_env().block_coinbase, coinbase());
    assert_eq!(evm.global_env().block_number, U256::from_u64(2));
    assert_eq!(evm.global_env().block_timestamp, U256::from_u64(3));
    assert_eq!(evm.global_env().block_difficulty, U256::from_u64(4));
    assert_eq!(evm.global_env().block_gas_limit, U256::from_u64(5));
    assert_eq!(evm.global_env().chain_id, U256::from_u64(1));
}

#[test]
fn checked_transactions_run_where_their_gas_can_be_counted() {
    let mut db = funded();
    let mut evm: EVM<MemoryDb, Script> = EVM::new(&mut db, env(1));
    let (reason, _, spent, state) = evm
        .checked_call::<BerlinSpec>(
            sender(),
            account(0x10),
            U256::from_u64(5),
            Bytes::from(vec![0, 1]),
            30_000,
            vec![(account(0x20), vec![word(1)])],
        )
        .unwrap();
    assert_eq!(reason, ExitReason::Succeed(ExitSucceed::Stopped));
    assert_eq!(spent, 21_020 + 2_400 + 1_900);
    assert_eq!(balance(&state, account(0x10)), U256::from_u64(5));
    let (reason, address, spent, _) = evm
        .checked_create::<BerlinSpec>(
            sender(),
            U256::zero(),
            Bytes::from(vec![RETURN, 1]),
            CreateScheme::Create,
            60_000,
            vec![],
        )
        .unwrap();
    assert_eq!(reason, ExitReason::Succeed(ExitSucceed::Returned));
    assert_eq!(address, Some(create_address(sender(), 7)));
    assert_eq!(spent, 53_032 + 200);
}

#[test]
fn checked_transactions_are_refused_where_gas_cannot_be_counted() {
    let mut db = funded();
    let mut evm: EVM<MemoryDb, Script> = EVM::new(&mut db, env(1));
    for (data, list, fits) in [
        (vec![0], vec![], true),
        (vec![0, 0], vec![], false),
        (vec![1], vec![], false),
        (vec![1, 1, 1], vec![], false),
        (vec![], vec![(account(1), vec![])], true),
        (vec![], vec![(account(1), vec![word(1)])], false),
    ] {
        let result = evm.checked_call::<Dear>(
            sender(),
            account(0x10),
            U256::zero(),
            Bytes::from(data),
            7,
            list,
        );
        assert_eq!(result.is_some(), fits);
        if let Some((reason, _, spent, _)) = result {
            assert_eq!(reason, ExitReason::Error(ExitError::OutOfGas));
            assert_eq!(spent, 0);
        }
    }
    assert!(evm
        .checked_create::<Dear>(
            sender(),
            U256::zero(),
            Bytes::from(vec![0]),
            CreateScheme::Create,
            7,
            vec![],
        )
        .is_none());
    assert!(evm.take_trace().is_empty());
}

#[test]
fn checked_transactions_are_refused_where_the_price_cannot_be_counted() {
    let mut dear = env(0);
    dear.gas_price = U256([0, 0, 0, 1 << 50]);
    let mut db = funded();
    let mut evm: EVM<MemoryDb, Script> = EVM::new(&mut db, dear);
    for (gas_limit, fits) in [(1 << 13, true), ((1 << 14) - 1, true), (1 << 15, false)] {
        let result = evm.checked_call::<Shallow>(
            sender(),
            account(0x10),
            U256::zero(),
            Bytes::new(),
            gas_limit,
            vec![],
        );
        assert_eq!(result.is_some(), fits);
        let result = evm.checked_create::<Shallow>(
            sender(),
            U256::zero(),
            Bytes::new(),
            CreateScheme::Create,
            gas_limit,
            vec![],
        );
        assert_eq!(result.is_some(), fits);
    }
    // too little gas to run at all
    assert!(evm
        .checked_call::<Shallow>(
            sender(),
            account(0x10),
            U256::zero(),
            Bytes::new(),
            4,
            vec![],
        )
        .is_some());
}
