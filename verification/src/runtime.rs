//! What executes instructions and built-in contracts.
use crate::account::AccountView;
use crate::buffer::buffer_is_empty;
use crate::db::Database;
use crate::digest::hash_of;
use crate::env::{CallContext, CreateScheme, Transfer};
use crate::error::{ExitError, ExitFatal, ExitReason, ExitSucceed};
use crate::evm::EVM;
use crate::hardfork::{rules, RulesView, Spec};
use crate::machine::{Gas, Machine, MachineView};
use crate::model::{gas_charged, gas_spent, initial_gas, CallGate, CreateGate, EvmView};
use crate::precompiles::{addresses_of, result_view, OutputView, Precompile, PrecompileResult};
use crate::primitives::{u256_bound, H160, H256, U256};
use crate::subroutine::{Mark, SubView};
use crate::trace::TraceView;
use vstd::prelude::*;

verus! {

/// Executes code on a machine, with an `EVM` as its host, and runs built-in
/// contracts.
///
/// `runs` and `precompiled` say which outcomes are possible. A runtime that does
/// not define them allows any.
pub trait Runtime: Sized {
    /// Whether running `machine` on `host` under `rules` can end for `reason` and leave
    /// `machine_after` and `host_after`.
    open spec fn runs(
        rules: RulesView,
        machine: MachineView,
        host: EvmView,
        reason: ExitReason,
        machine_after: MachineView,
        host_after: EvmView,
    ) -> bool {
        true
    }

    /// Whether a built-in contract can give `result`.
    open spec fn precompiled(
        precompile: Precompile,
        input: Seq<u8>,
        gas_limit: u64,
        context: CallContext,
        is_static: bool,
        result: Result<OutputView, ExitError>,
    ) -> bool {
        true
    }

    /// Executes the code of `machine` to its end.
    ///
    /// The limit of the gas meter stays as it is. The host is changed through its
    /// `Handler` operations, so checkpoints that were open stay.
    fn run<'a, DB: Database, SPEC: Spec>(
        machine: &mut Machine,
        host: &mut EVM<'a, DB, Self>,
    ) -> (r: ExitReason)
        requires
            old(host).wf(),
            old(machine)@.gas.wf(),
        ensures
            final(host).wf(),
            final(machine)@.gas.wf(),
            final(machine)@.gas.limit == old(machine)@.gas.limit,
            old(host)@.keeps(final(host)@),
            Self::runs(
                rules::<SPEC>(),
                old(machine)@,
                old(host)@,
                r,
                final(machine)@,
                final(host)@,
            ),
    ;

    /// Runs a built-in contract.
    fn run_precompile(
        precompile: Precompile,
        input: &[u8],
        gas_limit: u64,
        context: &CallContext,
        is_static: bool,
    ) -> (r: PrecompileResult)
        ensures
            Self::precompiled(
                precompile,
                input@,
                gas_limit,
                *context,
                is_static,
                result_view(r),
            ),
    ;
}

/// Whether a call whose code runs on `machine` and `evm` inside checkpoint `index`
/// can end with the given reason, meter and output and leave `after`, by way of
/// what the code leaves.
pub open spec fn call_ran<R: Runtime>(
    rules: RulesView,
    index: int,
    machine: MachineView,
    evm: EvmView,
    reason: ExitReason,
    gas: Gas,
    output: Seq<u8>,
    after: EvmView,
    machine_after: MachineView,
    host_after: EvmView,
) -> bool {
    &&& R::runs(rules, machine, evm, reason, machine_after, host_after)
    &&& evm.keeps(host_after)
    &&& machine_after.gas.wf()
    &&& machine_after.gas.limit == machine.gas.limit
    &&& gas == machine_after.gas
    &&& output == machine_after.output
    &&& after == host_after.ended(index, reason)
}

/// Whether a call that a built-in contract carries out on `evm` inside checkpoint
/// `index` can end with the given reason, meter and output and leave `after`, by way
/// of `result`.
pub open spec fn precompile_ran<R: Runtime>(
    rules: RulesView,
    index: int,
    precompile: Precompile,
    evm: EvmView,
    input: Seq<u8>,
    gas_limit: u64,
    context: CallContext,
    reason: ExitReason,
    gas: Gas,
    output: Seq<u8>,
    after: EvmView,
    result: Result<OutputView, ExitError>,
) -> bool {
    &&& R::precompiled(precompile, input, gas_limit, context, rules.is_static_call, result)
    &&& (reason, gas, output, after) == evm.precompile_ended(index, gas_limit, result)
}

/// Whether a call made on `before` can end with the given reason, meter and
/// output and leave `after`.
pub open spec fn call_outcome<R: Runtime>(
    rules: RulesView,
    before: EvmView,
    code_address: H160,
    transfer: Option<Transfer>,
    input: Seq<u8>,
    gas_limit: u64,
    context: CallContext,
    reason: ExitReason,
    gas: Gas,
    output: Seq<u8>,
    after: EvmView,
) -> bool {
    let index = before.sub.marks.len() as int;
    match before.call_gate(rules, code_address, transfer, input, gas_limit, context) {
        CallGate::Ended { reason: why, gas: left, evm } => {
            reason == why && gas == left && output == Seq::<u8>::empty() && after == evm
        },
        CallGate::Precompiled { precompile, evm } => {
            exists|result: Result<OutputView, ExitError>| #[trigger]
                precompile_ran::<R>(
                    rules,
                    index,
                    precompile,
                    evm,
                    input,
                    gas_limit,
                    context,
                    reason,
                    gas,
                    output,
                    after,
                    result,
                )
        },
        CallGate::Run { machine, evm } => {
            exists|machine_after: MachineView, host_after: EvmView| #[trigger]
                call_ran::<R>(
                    rules,
                    index,
                    machine,
                    evm,
                    reason,
                    gas,
                    output,
                    after,
                    machine_after,
                    host_after,
                )
        },
    }
}

/// Whether the creation of the contract at `place`, whose init code runs on
/// `machine` and `evm` inside checkpoint `index`, can end with the given reason,
/// address, meter and output and leave `after`, by way of what the code leaves.
pub open spec fn create_ran<R: Runtime>(
    rules: RulesView,
    index: int,
    machine: MachineView,
    evm: EvmView,
    place: H160,
    reason: ExitReason,
    address: Option<H160>,
    gas: Gas,
    output: Seq<u8>,
    after: EvmView,
    ran: ExitReason,
    machine_after: MachineView,
    host_after: EvmView,
) -> bool {
    &&& R::runs(rules, machine, evm, ran, machine_after, host_after)
    &&& evm.keeps(host_after)
    &&& machine_after.gas.wf()
    &&& machine_after.gas.limit == machine.gas.limit
    &&& (reason, address, gas, output, after) == host_after.create_ended(
        index,
        place,
        hash_of(machine.contract.code),
        rules.contract_limit,
        ran,
        machine_after,
    )
}

/// Whether an attempt on `before` to create a contract can end with the given
/// reason, address, meter and output and leave `after`.
pub open spec fn create_outcome<R: Runtime>(
    rules: RulesView,
    before: EvmView,
    caller: H160,
    scheme: CreateScheme,
    value: U256,
    init_code: Seq<u8>,
    gas_limit: u64,
    reason: ExitReason,
    address: Option<H160>,
    gas: Gas,
    output: Seq<u8>,
    after: EvmView,
) -> bool {
    let index = before.sub.marks.len() as int;
    match before.create_gate(rules, caller, scheme, value, init_code, gas_limit) {
        CreateGate::Ended { reason: why, gas: left, evm } => {
            reason == why && address is None && gas == left && output == Seq::<u8>::empty() && after
                == evm
        },
        CreateGate::Run { machine, evm, address: place } => {
            exists|ran: ExitReason, machine_after: MachineView, host_after: EvmView| #[trigger]
                create_ran::<R>(
                    rules,
                    index,
                    machine,
                    evm,
                    place,
                    reason,
                    address,
                    gas,
                    output,
                    after,
                    ran,
                    machine_after,
                    host_after,
                )
        },
    }
}

/// Whether a call made as a transaction, with enough gas to run, can end with the
/// given results by way of `gas` and `called`, which the call itself leaves.
pub open spec fn call_charged<R: Runtime>(
    rules: RulesView,
    before: EvmView,
    caller: H160,
    address: H160,
    value: U256,
    data: Seq<u8>,
    gas_limit: u64,
    access_list: Seq<(H160, Vec<H256>)>,
    reason: ExitReason,
    output: Seq<u8>,
    charged: u64,
    accounts: Map<H160, AccountView>,
    after: EvmView,
    gas: Gas,
    called: EvmView,
) -> bool {
    let initial = initial_gas(rules, data, false, access_list);
    let loaded = before.initialized(rules.precompiles, access_list).load(caller);
    &&& call_outcome::<R>(
        rules,
        loaded.with_sub(loaded.sub.inc_nonce(caller)),
        address,
        Some(Transfer { source: caller, target: address, value }),
        data,
        (gas_limit - initial) as u64,
        CallContext { caller, address, apparent_value: value },
        reason,
        gas,
        output,
        called,
    )
    &&& charged == gas_charged(gas_spent(gas_limit, initial as int, reason, gas), gas.refunded)
    &&& (after, accounts) == called.settled(caller, charged)
}

/// Whether a call that `before` makes as a transaction of `caller` can end for
/// `reason` with `output`, be charged for `charged` gas, hand out `accounts` and
/// leave `after`.
///
/// A transaction whose gas does not cover what it uses before any code runs ends
/// there, without a charge.
pub open spec fn call_settled<R: Runtime>(
    rules: RulesView,
    before: EvmView,
    caller: H160,
    address: H160,
    value: U256,
    data: Seq<u8>,
    gas_limit: u64,
    access_list: Seq<(H160, Vec<H256>)>,
    reason: ExitReason,
    output: Seq<u8>,
    charged: u64,
    accounts: Map<H160, AccountView>,
    after: EvmView,
) -> bool {
    let initial = initial_gas(rules, data, false, access_list);
    let ready = before.initialized(rules.precompiles, access_list);
    if gas_limit < initial {
        &&& reason == ExitReason::Error(ExitError::OutOfGas)
        &&& output == Seq::<u8>::empty()
        &&& charged == 0
        &&& accounts == Map::<H160, AccountView>::empty()
        &&& after == ready
    } else {
        exists|gas: Gas, called: EvmView| #[trigger]
            call_charged::<R>(
                rules,
                before,
                caller,
                address,
                value,
                data,
                gas_limit,
                access_list,
                reason,
                output,
                charged,
                accounts,
                after,
                gas,
                called,
            )
    }
}

/// Whether a creation made as a transaction, with enough gas to run, can end with
/// the given results by way of `gas`, `output` and `created`, which the creation
/// itself leaves.
pub open spec fn create_charged<R: Runtime>(
    rules: RulesView,
    before: EvmView,
    caller: H160,
    value: U256,
    init_code: Seq<u8>,
    scheme: CreateScheme,
    gas_limit: u64,
    access_list: Seq<(H160, Vec<H256>)>,
    reason: ExitReason,
    address: Option<H160>,
    charged: u64,
    accounts: Map<H160, AccountView>,
    after: EvmView,
    gas: Gas,
    output: Seq<u8>,
    created: EvmView,
) -> bool {
    let initial = initial_gas(rules, init_code, true, access_list);
    let spent = gas_spent(gas_limit, initial as int, reason, gas);
    &&& create_outcome::<R>(
        rules,
        before.initialized(rules.precompiles, access_list),
        caller,
        scheme,
        value,
        init_code,
        (gas_limit - initial) as u64,
        reason,
        address,
        gas,
        output,
        created,
    )
    &&& charged == gas_charged(spent, gas.refunded)
    &&& (after, accounts) == created.traced(
        TraceView::CreateGas { gas_spend: spent as u64, charged, gas },
    ).settled(caller, charged)
}

/// Whether the creation of a contract that `before` makes as a transaction of
/// `caller` can end for `reason` with a contract at `address`, be charged for
/// `charged` gas, hand out `accounts` and leave `after`.
pub open spec fn create_settled<R: Runtime>(
    rules: RulesView,
    before: EvmView,
    caller: H160,
    value: U256,
    init_code: Seq<u8>,
    scheme: CreateScheme,
    gas_limit: u64,
    access_list: Seq<(H160, Vec<H256>)>,
    reason: ExitReason,
    address: Option<H160>,
    charged: u64,
    accounts: Map<H160, AccountView>,
    after: EvmView,
) -> bool {
    let initial = initial_gas(rules, init_code, true, access_list);
    let ready = before.initialized(rules.precompiles, access_list);
    if gas_limit < initial {
        &&& reason == ExitReason::Error(ExitError::OutOfGas)
        &&& address is None
        &&& charged == 0
        &&& accounts == Map::<H160, AccountView>::empty()
        &&& after == ready
    } else {
        exists|gas: Gas, output: Seq<u8>, created: EvmView| #[trigger]
            create_charged::<R>(
                rules,
                before,
                caller,
                value,
                init_code,
                scheme,
                gas_limit,
                access_list,
                reason,
                address,
                charged,
                accounts,
                after,
                gas,
                output,
                created,
            )
    }
}

/// Whether the price of a call made as a transaction fits in 256 bits, whatever
/// comes of the call. That is so at least where the price of all its gas does.
pub open spec fn call_payable<R: Runtime>(
    rules: RulesView,
    before: EvmView,
    caller: H160,
    address: H160,
    value: U256,
    data: Seq<u8>,
    gas_limit: u64,
    access_list: Seq<(H160, Vec<H256>)>,
) -> bool {
    let initial = initial_gas(rules, data, false, access_list);
    let loaded = before.initialized(rules.precompiles, access_list).load(caller);
    ||| gas_limit < initial
    ||| gas_limit * before.env.gas_price@ < u256_bound()
    ||| forall|reason: ExitReason, gas: Gas, output: Seq<u8>, called: EvmView| #[trigger]
        call_outcome::<R>(
            rules,
            loaded.with_sub(loaded.sub.inc_nonce(caller)),
            address,
            Some(Transfer { source: caller, target: address, value }),
            data,
            (gas_limit - initial) as u64,
            CallContext { caller, address, apparent_value: value },
            reason,
            gas,
            output,
            called,
        ) ==> gas_charged(gas_spent(gas_limit, initial as int, reason, gas), gas.refunded)
            * before.env.gas_price@ < u256_bound()
}

/// Whether the price of a creation made as a transaction fits in 256 bits,
/// whatever comes of it. That is so at least where the price of all its gas does.
pub open spec fn create_payable<R: Runtime>(
    rules: RulesView,
    before: EvmView,
    caller: H160,
    value: U256,
    init_code: Seq<u8>,
    scheme: CreateScheme,
    gas_limit: u64,
    access_list: Seq<(H160, Vec<H256>)>,
) -> bool {
    let initial = initial_gas(rules, init_code, true, access_list);
    let ready = before.initialized(rules.precompiles, access_list);
    ||| gas_limit < initial
    ||| gas_limit * before.env.gas_price@ < u256_bound()
    ||| forall|
        reason: ExitReason,
        address: Option<H160>,
        gas: Gas,
        output: Seq<u8>,
        created: EvmView,
    | #[trigger]
        create_outcome::<R>(
            rules,
            ready,
            caller,
            scheme,
            value,
            init_code,
            (gas_limit - initial) as u64,
            reason,
            address,
            gas,
            output,
            created,
        ) ==> gas_charged(gas_spent(gas_limit, initial as int, reason, gas), gas.refunded)
            * before.env.gas_price@ < u256_bound()
}

/// Whether `later` is `before` with at most some accounts and storage words
/// loaded: apart from them nothing differs.
pub open spec fn only_loads(before: EvmView, later: EvmView) -> bool {
    &&& later == (EvmView { sub: SubView { accounts: later.sub.accounts, ..before.sub }, ..before })
    &&& before.sub.accounts.dom().subset_of(later.sub.accounts.dom())
}

/// Loading addresses one after the other only loads.
pub proof fn lemma_load_all(before: EvmView, addresses: Seq<H160>)
    ensures
        only_loads(before, before.load_all(addresses)),
    decreases addresses.len(),
{
    if addresses.len() > 0 {
        lemma_load_all(before, addresses.drop_last());
    }
}

/// Reading storage words one after the other only loads.
pub proof fn lemma_load_slots(before: EvmView, address: H160, indices: Seq<H256>)
    ensures
        only_loads(before, before.load_slots(address, indices)),
    decreases indices.len(),
{
    if indices.len() > 0 {
        lemma_load_slots(before, address, indices.drop_last());
    }
}

/// Going through an access list only loads.
pub proof fn lemma_load_access_list(before: EvmView, list: Seq<(H160, Vec<H256>)>)
    ensures
        only_loads(before, before.load_access_list(list)),
    decreases list.len(),
{
    if list.len() > 0 {
        lemma_load_access_list(before, list.drop_last());
        let loaded = before.load_access_list(list.drop_last()).load(list.last().0);
        lemma_load_slots(loaded, list.last().0, list.last().1@);
    }
}

/// Getting ready for a transaction only loads, apart from taking note of the
/// built-in contracts.
pub proof fn lemma_initialized(
    before: EvmView,
    precompiles: Seq<Precompile>,
    access_list: Seq<(H160, Vec<H256>)>,
)
    ensures
        only_loads(
            EvmView { precompiles, ..before },
            before.initialized(precompiles, access_list),
        ),
{
    let noted = EvmView { precompiles, ..before };
    lemma_load_all(noted, addresses_of(precompiles));
    lemma_load_access_list(noted.load_all(addresses_of(precompiles)), access_list);
}

/// What code runs on inside a new checkpoint: the surroundings are the same, the
/// checkpoint remembers `mark`, and everything it remembers is loaded.
pub open spec fn inside(before: EvmView, mark: Mark, evm: EvmView) -> bool {
    &&& evm.db == before.db
    &&& evm.env == before.env
    &&& evm.precompiles == before.precompiles
    &&& evm.sub.marks == before.sub.marks.push(mark)
    &&& before.sub.accounts.dom().subset_of(mark.accounts.dom())
    &&& mark.accounts.dom().subset_of(evm.sub.accounts.dom())
}

/// Closing the checkpoint that code ran in keeps what was there before.
pub proof fn lemma_inside_ended(
    before: EvmView,
    mark: Mark,
    evm: EvmView,
    after: EvmView,
    index: int,
)
    requires
        inside(before, mark, evm),
        evm.keeps(after),
        index == before.sub.marks.len(),
    ensures
        after.sub.marks[index] == mark,
        after.sub.marks.take(index) == before.sub.marks,
        before.keeps(after.with_sub(after.sub.rolled_back(index))),
        before.keeps(after.with_sub(after.sub.committed(index))),
{
    let marks = after.sub.marks;
    assert(marks.take(index + 1)[index] == mark);
    assert(marks.take(index) =~= before.sub.marks) by {
        assert(marks.take(index) =~= marks.take(index + 1).take(index));
    }
    assert(before.sub.marks.take(index) =~= before.sub.marks);
}

/// What a checkpoint of a call remembers: the state in which the code has been
/// fetched.
pub open spec fn call_mark(before: EvmView, code_address: H160) -> Mark {
    let coded = before.load_code(code_address);
    Mark { accounts: coded.sub.accounts, logs: coded.sub.logs }
}

/// What a call keeps before any code runs.
pub proof fn lemma_call_gate(
    rules: RulesView,
    before: EvmView,
    code_address: H160,
    transfer: Option<Transfer>,
    input: Seq<u8>,
    gas_limit: u64,
    context: CallContext,
)
    ensures
        match before.call_gate(rules, code_address, transfer, input, gas_limit, context) {
            CallGate::Ended { reason, gas, evm } => before.keeps(evm),
            CallGate::Precompiled { precompile, evm } => inside(
                before,
                call_mark(before, code_address),
                evm,
            ),
            CallGate::Run { machine, evm } => inside(before, call_mark(before, code_address), evm),
        },
{
    let mark = call_mark(before, code_address);
    let index = before.sub.marks.len() as int;
    let marks = before.sub.marks.push(mark);
    assert(marks.take(index) =~= before.sub.marks);
    assert(before.sub.marks.take(index) =~= before.sub.marks);
}

/// A call leaves the surroundings as they are, keeps what was loaded and the open
/// checkpoints, and its meter is sound and within its limit.
pub proof fn lemma_call_outcome<R: Runtime>(
    rules: RulesView,
    before: EvmView,
    code_address: H160,
    transfer: Option<Transfer>,
    input: Seq<u8>,
    gas_limit: u64,
    context: CallContext,
    reason: ExitReason,
    gas: Gas,
    output: Seq<u8>,
    after: EvmView,
)
    requires
        call_outcome::<R>(
            rules,
            before,
            code_address,
            transfer,
            input,
            gas_limit,
            context,
            reason,
            gas,
            output,
            after,
        ),
    ensures
        before.keeps(after),
        gas.wf(),
        gas.limit <= gas_limit,
{
    lemma_call_gate(rules, before, code_address, transfer, input, gas_limit, context);
    let index = before.sub.marks.len() as int;
    let mark = call_mark(before, code_address);
    match before.call_gate(rules, code_address, transfer, input, gas_limit, context) {
        CallGate::Ended { reason: why, gas: left, evm } => {},
        CallGate::Precompiled { precompile, evm } => {
            let result = choose|result: Result<OutputView, ExitError>| #[trigger]
                precompile_ran::<R>(
                    rules,
                    index,
                    precompile,
                    evm,
                    input,
                    gas_limit,
                    context,
                    reason,
                    gas,
                    output,
                    after,
                    result,
                );
            assert(evm.sub.marks.take(evm.sub.marks.len() as int) =~= evm.sub.marks);
            lemma_inside_ended(before, mark, evm, evm, index);
            if let Ok(out) = result {
                lemma_inside_ended(before, mark, evm, evm.logged(out.logs), index);
            }
        },
        CallGate::Run { machine, evm } => {
            let (machine_after, host_after) = choose|
                machine_after: MachineView,
                host_after: EvmView,
            | #[trigger]
                call_ran::<R>(
                    rules,
                    index,
                    machine,
                    evm,
                    reason,
                    gas,
                    output,
                    after,
                    machine_after,
                    host_after,
                );
            lemma_inside_ended(before, mark, evm, host_after, index);
        },
    }
}

/// An attempt to create a contract leaves the surroundings as they are, keeps
/// what was loaded and the open checkpoints, and its meter is sound and within its
/// limit.
pub proof fn lemma_create_outcome<R: Runtime>(
    rules: RulesView,
    before: EvmView,
    caller: H160,
    scheme: CreateScheme,
    value: U256,
    init_code: Seq<u8>,
    gas_limit: u64,
    reason: ExitReason,
    address: Option<H160>,
    gas: Gas,
    output: Seq<u8>,
    after: EvmView,
)
    requires
        create_outcome::<R>(
            rules,
            before,
            caller,
            scheme,
            value,
            init_code,
            gas_limit,
            reason,
            address,
            gas,
            output,
            after,
        ),
    ensures
        before.keeps(after),
        gas.wf(),
        gas.limit <= gas_limit,
{
    let index = before.sub.marks.len() as int;
    lemma_create_gate(rules, before, caller, scheme, value, init_code, gas_limit);
    match before.create_gate(rules, caller, scheme, value, init_code, gas_limit) {
        CreateGate::Ended { reason: why, gas: left, evm } => {},
        CreateGate::Run { machine, evm, address: place } => {
            let (ran, machine_after, host_after) = choose|
                ran: ExitReason,
                machine_after: MachineView,
                host_after: EvmView,
            | #[trigger]
                create_ran::<R>(
                    rules,
                    index,
                    machine,
                    evm,
                    place,
                    reason,
                    address,
                    gas,
                    output,
                    after,
                    ran,
                    machine_after,
                    host_after,
                );
            lemma_inside_ended(before, create_mark(before, caller), evm, host_after, index);
        },
    }
}

/// What a checkpoint of a creation remembers: the state in which the nonce of the
/// creator has been raised.
pub open spec fn create_mark(before: EvmView, caller: H160) -> Mark {
    let raised = before.load(caller).sub.inc_nonce(caller);
    Mark { accounts: raised.accounts, logs: raised.logs }
}

/// What an attempt to create a contract keeps before any code runs.
pub proof fn lemma_create_gate(
    rules: RulesView,
    before: EvmView,
    caller: H160,
    scheme: CreateScheme,
    value: U256,
    init_code: Seq<u8>,
    gas_limit: u64,
)
    ensures
        match before.create_gate(rules, caller, scheme, value, init_code, gas_limit) {
            CreateGate::Ended { reason, gas, evm } => before.keeps(evm) && (gas.limit == 0
                || gas.limit == gas_limit) && gas.used == 0,
            CreateGate::Run { machine, evm, address } => {
                &&& inside(before, create_mark(before, caller), evm)
                &&& evm.sub.accounts.contains_key(address)
            },
        },
{
    let mark = create_mark(before, caller);
    let index = before.sub.marks.len() as int;
    let marks = before.sub.marks.push(mark);
    assert(marks.take(index) =~= before.sub.marks);
    assert(before.sub.marks.take(index) =~= before.sub.marks);
}

/// A runtime without instructions: an account without code can be called, and
/// nothing else is supported.
pub struct TransferRuntime;

impl Runtime for TransferRuntime {
    open spec fn runs(
        rules: RulesView,
        machine: MachineView,
        host: EvmView,
        reason: ExitReason,
        machine_after: MachineView,
        host_after: EvmView,
    ) -> bool {
        &&& machine_after == machine
        &&& host_after == host
        &&& reason == if machine.contract.code.len() == 0 {
            ExitReason::Succeed(ExitSucceed::Stopped)
        } else {
            ExitReason::Fatal(ExitFatal::NotSupported)
        }
    }

    open spec fn precompiled(
        precompile: Precompile,
        input: Seq<u8>,
        gas_limit: u64,
        context: CallContext,
        is_static: bool,
        result: Result<OutputView, ExitError>,
    ) -> bool {
        result == Err::<OutputView, ExitError>(ExitError::PrecompileFailed)
    }

    fn run<'a, DB: Database, SPEC: Spec>(
        machine: &mut Machine,
        host: &mut EVM<'a, DB, Self>,
    ) -> (r: ExitReason) {
        assert(host@.sub.marks.take(host@.sub.marks.len() as int) =~= host@.sub.marks);
        if buffer_is_empty(&machine.contract.code) {
            ExitReason::Succeed(ExitSucceed::Stopped)
        } else {
            ExitReason::Fatal(ExitFatal::NotSupported)
        }
    }

    fn run_precompile(
        precompile: Precompile,
        input: &[u8],
        gas_limit: u64,
        context: &CallContext,
        is_static: bool,
    ) -> (r: PrecompileResult) {
        Err(ExitError::PrecompileFailed)
    }
}

} // verus!
