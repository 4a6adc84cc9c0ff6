//! What holds of the machine as a whole.
use crate::account::AccountView;
use crate::db::InfoView;
use crate::digest::hash_of;
use crate::env::{CallContext, CreateScheme, LogView, Transfer};
use crate::error::{ExitError, ExitReason, ExitSucceed};
use crate::hardfork::RulesView;
use crate::machine::{Gas, MachineView};
use crate::model::{
    full_gas, gas_charged, gas_spent, initial_gas, listed_slots, new_address, zero_bytes, CallGate,
    CreateGate, EvmView,
};
use crate::precompiles::{addresses_of, entry_at, OutputView, Precompile};
use crate::primitives::{u256_bound, zero_hash, H160, H256, U256};
use crate::runtime::{
    call_charged, call_mark, call_outcome, call_ran, call_settled, create_charged, create_mark,
    create_outcome, create_ran, create_settled, lemma_call_gate, lemma_call_outcome,
    lemma_create_gate, lemma_create_outcome, lemma_initialized, lemma_inside_ended,
    precompile_ran, Runtime, TransferRuntime,
};
use crate::subroutine::{next_nonce, SubView};
use crate::trace::TraceView;
use vstd::prelude::*;

verus! {

/// What an account is, whether it has been loaded or not.
pub struct Standing {
    pub balance: nat,
    pub nonce: u64,
    pub code_hash: H256,
    pub code: Seq<u8>,
    pub created: bool,
    pub destroyed: bool,
}

/// The account at `address`: the loaded one, or else that of the database.
pub open spec fn account_at(evm: EvmView, address: H160) -> AccountView {
    if evm.sub.accounts.contains_key(address) {
        evm.sub.accounts[address]
    } else {
        AccountView {
            info: (evm.db.accounts)(address),
            storage: Map::empty(),
            created: false,
            destroyed: false,
        }
    }
}

/// The code of an account, fetched or not.
pub open spec fn code_of(evm: EvmView, info: InfoView) -> Seq<u8> {
    match info.code {
        Some(code) => code,
        None => (evm.db.codes)(info.code_hash),
    }
}

/// What the account at `address` is.
pub open spec fn standing(evm: EvmView, address: H160) -> Standing {
    let account = account_at(evm, address);
    Standing {
        balance: account.info.balance,
        nonce: account.info.nonce,
        code_hash: account.info.code_hash,
        code: code_of(evm, account.info),
        created: account.created,
        destroyed: account.destroyed,
    }
}

/// The storage word of `address` at `index`, read or not.
pub open spec fn word(evm: EvmView, address: H160, index: H256) -> H256 {
    let account = account_at(evm, address);
    if account.storage.contains_key(index) {
        account.storage[index].present
    } else if account.created {
        zero_hash()
    } else {
        (evm.db.storage)(address, index)
    }
}

/// The storage word of `address` at `index` as it was before the transaction, read or
/// not.
pub open spec fn first_word(evm: EvmView, address: H160, index: H256) -> H256 {
    let account = account_at(evm, address);
    if account.storage.contains_key(index) {
        account.storage[index].original
    } else if account.created {
        zero_hash()
    } else {
        (evm.db.storage)(address, index)
    }
}

/// Whether nothing that code can observe about accounts, storage and logs
/// differs.
pub open spec fn same_world(a: EvmView, b: EvmView) -> bool {
    &&& a.db == b.db
    &&& a.sub.logs == b.sub.logs
    &&& forall|address: H160| #[trigger] standing(a, address) == standing(b, address)
    &&& forall|address: H160, index: H256| #[trigger]
        word(a, address, index) == word(b, address, index)
    &&& forall|address: H160, index: H256| #[trigger]
        first_word(a, address, index) == first_word(b, address, index)
}

/// Loading an account, its code or a storage word changes nothing that can be
/// observed.
pub proof fn law_loading_is_not_observed(evm: EvmView, address: H160, index: H256)
    ensures
        same_world(evm, evm.load(address)),
        same_world(evm, evm.load_code(address)),
        same_world(evm, evm.load_slot(address, index)),
{
}

/// What has been loaded stays loaded: a second access is never cold and changes
/// nothing.
pub proof fn law_second_access_is_warm(evm: EvmView, address: H160, index: H256)
    ensures
        evm.load(address).sub.accounts.contains_key(address),
        evm.load(address).load(address) == evm.load(address),
        evm.load_code(address).sub.accounts.contains_key(address),
        evm.load_code(address).load_code(address) == evm.load_code(address),
        evm.load_slot(address, index).sub.has_slot(address, index),
        evm.load_slot(address, index).load_slot(address, index) == evm.load_slot(address, index),
{
}

/// A storage word that has been written reads back as it was written; its value
/// before the transaction is still known; no other word, no account and no log is
/// touched.
pub proof fn law_stored_word_reads_back(evm: EvmView, address: H160, index: H256, value: H256)
    ensures
        ({
            let after = evm.store_slot(address, index, value);
            &&& word(after, address, index) == value
            &&& after.load_slot(address, index).sub.accounts[address].storage[index].present
                == value
            &&& after.sub.accounts[address].storage[index].original == evm.load_slot(
                address,
                index,
            ).sub.accounts[address].storage[index].original
            &&& forall|a: H160, i: H256|
                a != address || i != index ==> #[trigger] word(after, a, i) == word(evm, a, i)
            &&& forall|a: H160| #[trigger] standing(after, a) == standing(evm, a)
            &&& after.sub.logs == evm.sub.logs
        }),
{
}

/// A transfer moves exactly its value from one account to the other; a transfer
/// that fails, or that an account makes to itself, moves nothing.
pub proof fn law_transfer_moves_value(evm: EvmView, source: H160, target: H160, value: nat)
    ensures
        ({
            let (sub, outcome) = evm.sub.transfer(evm.db, source, target, value);
            let after = evm.with_sub(sub);
            &&& outcome is Ok ==> standing(evm, source).balance >= value
            &&& outcome is Ok && source != target ==> {
                &&& standing(after, source).balance + value == standing(evm, source).balance
                &&& standing(after, target).balance == standing(evm, target).balance + value
            }
            &&& outcome is Err || source == target ==> same_world(evm, after)
            &&& forall|a: H160|
                a != source && a != target ==> #[trigger] standing(after, a) == standing(evm, a)
            &&& forall|a: H160, i: H256| #[trigger] word(after, a, i) == word(evm, a, i)
            &&& after.sub.logs == evm.sub.logs
        }),
{
}

/// Destroying an account leaves it without value and marked for deletion, and
/// hands what it had to the target.
pub proof fn law_destroyed_account_is_emptied(evm: EvmView, address: H160, target: H160)
    ensures
        ({
            let after = evm.destroy(address, target);
            let sum = standing(evm, target).balance + standing(evm, address).balance;
            &&& standing(after, address).balance == 0
            &&& standing(after, address).destroyed
            &&& target != address && sum < u256_bound() ==> standing(after, target).balance == sum
            &&& forall|a: H160|
                a != address && a != target ==> #[trigger] standing(after, a) == standing(evm, a)
            &&& after.sub.logs == evm.sub.logs
        }),
{
}

/// Going back to a checkpoint restores exactly what was there when it was opened,
/// whatever was done since, as long as the checkpoint has been kept.
pub proof fn law_rollback_restores(before: SubView, later: SubView)
    requires
        before.marks.len() < later.marks.len(),
        later.marks.take(before.marks.len() as int + 1) == before.marked().marks,
    ensures
        later.rolled_back(before.marks.len() as int) == before,
{
    let n = before.marks.len() as int;
    assert(later.marks.take(n + 1)[n] == before.marked().marks[n]);
    assert(later.marks.take(n) =~= later.marks.take(n + 1).take(n));
    assert(before.marked().marks.take(n) =~= before.marks);
}

/// Closing a checkpoint for good keeps what was done and forgets the checkpoint.
pub proof fn law_commit_keeps(before: SubView, later: SubView)
    requires
        before.marks.len() < later.marks.len(),
        later.marks.take(before.marks.len() as int + 1) == before.marked().marks,
    ensures
        later.committed(before.marks.len() as int) == (SubView { marks: before.marks, ..later }),
{
    let n = before.marks.len() as int;
    assert(later.marks.take(n) =~= later.marks.take(n + 1).take(n));
    assert(before.marked().marks.take(n) =~= before.marks);
}

/// A call that does not succeed changes nothing that can be observed.
pub proof fn law_failed_call_changes_nothing<R: Runtime>(
    rules: RulesView,
    before: EvmView,
    code_address: H160,
    transfer: Option<Transfer>,
    input: Seq<u8>,
    gas_limit: u64,
    context: CallContext,
    reason: ExitReason,
    gas: Gas,
    output: Seq<u8>,
    after: EvmView,
)
    requires
        call_outcome::<R>(
            rules,
            before,
            code_address,
            transfer,
            input,
            gas_limit,
            context,
            reason,
            gas,
            output,
            after,
        ),
        !(reason is Succeed),
    ensures
        same_world(before, after),
{
    let index = before.sub.marks.len() as int;
    let mark = call_mark(before, code_address);
    let coded = before.load_code(code_address);
    law_loading_is_not_observed(before, code_address, zero_hash());
    lemma_call_gate(rules, before, code_address, transfer, input, gas_limit, context);
    match before.call_gate(rules, code_address, transfer, input, gas_limit, context) {
        CallGate::Ended { reason: why, gas: left, evm } => {
            let marked = coded.with_sub(coded.sub.marked());
            law_loading_is_not_observed(marked, context.address, zero_hash());
            assert(same_world(coded, marked));
            assert(marked.sub.marks[index] == mark);
        },
        CallGate::Precompiled { precompile, evm } => {
            assert(evm.sub.marks[index] == mark);
        },
        CallGate::Run { machine, evm } => {
            let (machine_after, host_after) = choose|
                machine_after: MachineView,
                host_after: EvmView,
            | #[trigger]
                call_ran::<R>(
                    rules,
                    index,
                    machine,
                    evm,
                    reason,
                    gas,
                    output,
                    after,
                    machine_after,
                    host_after,
                );
            lemma_inside_ended(before, mark, evm, host_after, index);
        },
    }
}

/// Whether an attempt to create a contract gets as far as raising the nonce of the
/// creator: it is not nested too deeply, and the creator has the value.
pub open spec fn raises_nonce(
    rules: RulesView,
    before: EvmView,
    caller: H160,
    value: U256,
) -> bool {
    &&& before.sub.marks.len() <= rules.call_stack_limit
    &&& standing(before, caller).balance >= value@
}

/// An attempt to create a contract that does not succeed yields no address and
/// changes nothing that can be observed, except that it has raised the nonce of the
/// creator exactly if it got that far.
pub proof fn law_failed_create_only_raises_the_nonce<R: Runtime>(
    rules: RulesView,
    before: EvmView,
    caller: H160,
    scheme: CreateScheme,
    value: U256,
    init_code: Seq<u8>,
    gas_limit: u64,
    reason: ExitReason,
    address: Option<H160>,
    gas: Gas,
    output: Seq<u8>,
    after: EvmView,
)
    requires
        create_outcome::<R>(
            rules,
            before,
            caller,
            scheme,
            value,
            init_code,
            gas_limit,
            reason,
            address,
            gas,
            output,
            after,
        ),
        !(reason is Succeed),
    ensures
        address is None,
        after.sub.logs == before.sub.logs,
        forall|a: H160, i: H256| #[trigger] word(after, a, i) == word(before, a, i),
        forall|a: H160| a != caller ==> #[trigger] standing(after, a) == standing(before, a),
        standing(after, caller) == (if raises_nonce(rules, before, caller, value) {
            Standing {
                nonce: next_nonce(standing(before, caller).nonce),
                ..standing(before, caller)
            }
        } else {
            standing(before, caller)
        }),
{
    let index = before.sub.marks.len() as int;
    let mark = create_mark(before, caller);
    law_loading_is_not_observed(before, caller, zero_hash());
    lemma_create_gate(rules, before, caller, scheme, value, init_code, gas_limit);
    match before.create_gate(rules, caller, scheme, value, init_code, gas_limit) {
        CreateGate::Ended { reason: why, gas: left, evm } => {
            assert(before.sub.marks.push(mark)[index] == mark);
        },
        CreateGate::Run { machine, evm, address: place } => {
            let (ran, machine_after, host_after) = choose|
                ran: ExitReason,
                machine_after: MachineView,
                host_after: EvmView,
            | #[trigger]
                create_ran::<R>(
                    rules,
                    index,
                    machine,
                    evm,
                    place,
                    reason,
                    address,
                    gas,
                    output,
                    after,
                    ran,
                    machine_after,
                    host_after,
                );
            lemma_inside_ended(before, mark, evm, host_after, index);
        },
    }
}

/// A contract comes into being exactly when its creation succeeds. It stands at
/// the address that its creator, the nonce or salt and the init code determine,
/// where there was neither a nonce nor code nor a built-in contract, and it has
/// code.
pub proof fn law_created_contract<R: Runtime>(
    rules: RulesView,
    before: EvmView,
    caller: H160,
    scheme: CreateScheme,
    value: U256,
    init_code: Seq<u8>,
    gas_limit: u64,
    reason: ExitReason,
    address: Option<H160>,
    gas: Gas,
    output: Seq<u8>,
    after: EvmView,
)
    requires
        create_outcome::<R>(
            rules,
            before,
            caller,
            scheme,
            value,
            init_code,
            gas_limit,
            reason,
            address,
            gas,
            output,
            after,
        ),
    ensures
        address is Some <==> reason is Succeed,
        address matches Some(place) ==> {
            &&& reason == ExitReason::Succeed(ExitSucceed::Returned)
            &&& place == new_address(
                scheme,
                caller,
                standing(before, caller).nonce,
                hash_of(init_code),
            )
            &&& !addresses_of(before.precompiles).contains(place)
            &&& place != caller ==> standing(before, place).nonce == 0
            &&& standing(before, place).code.len() == 0
            &&& standing(before, caller).balance >= value@
            &&& after.sub.accounts.contains_key(place)
            &&& after.sub.accounts[place].info.code is Some
            &&& after.sub.accounts[place].info.code_hash == hash_of(init_code)
            &&& rules.contract_limit is Some ==> after.sub.accounts[place].info.code->0.len()
                <= rules.contract_limit->0
        },
{
    let index = before.sub.marks.len() as int;
    lemma_create_gate(rules, before, caller, scheme, value, init_code, gas_limit);
    law_loading_is_not_observed(before, caller, zero_hash());
    match before.create_gate(rules, caller, scheme, value, init_code, gas_limit) {
        CreateGate::Ended { reason: why, gas: left, evm } => {},
        CreateGate::Run { machine, evm, address: place } => {
            let (ran, machine_after, host_after) = choose|
                ran: ExitReason,
                machine_after: MachineView,
                host_after: EvmView,
            | #[trigger]
                create_ran::<R>(
                    rules,
                    index,
                    machine,
                    evm,
                    place,
                    reason,
                    address,
                    gas,
                    output,
                    after,
                    ran,
                    machine_after,
                    host_after,
                );
        },
    }
}

/// A call comes back to the depth at which it was made, unless it was nested too
/// deeply: that call is refused, and its checkpoint stays open.
pub proof fn law_call_returns_to_its_depth<R: Runtime>(
    rules: RulesView,
    before: EvmView,
    code_address: H160,
    transfer: Option<Transfer>,
    input: Seq<u8>,
    gas_limit: u64,
    context: CallContext,
    reason: ExitReason,
    gas: Gas,
    output: Seq<u8>,
    after: EvmView,
)
    requires
        call_outcome::<R>(
            rules,
            before,
            code_address,
            transfer,
            input,
            gas_limit,
            context,
            reason,
            gas,
            output,
            after,
        ),
    ensures
        before.sub.marks.len() < rules.call_stack_limit ==> after.sub.marks == before.sub.marks,
        before.sub.marks.len() >= rules.call_stack_limit ==> reason == ExitReason::Error(
            ExitError::CallTooDeep,
        ) && after.sub.marks.len() == before.sub.marks.len() + 1,
{
    let index = before.sub.marks.len() as int;
    let mark = call_mark(before, code_address);
    lemma_call_gate(rules, before, code_address, transfer, input, gas_limit, context);
    assert(before.sub.marks.push(mark).take(index) =~= before.sub.marks);
    match before.call_gate(rules, code_address, transfer, input, gas_limit, context) {
        CallGate::Ended { reason: why, gas: left, evm } => {},
        CallGate::Precompiled { precompile, evm } => {
            let result = choose|result: Result<OutputView, ExitError>| #[trigger]
                precompile_ran::<R>(
                    rules,
                    index,
                    precompile,
                    evm,
                    input,
                    gas_limit,
                    context,
                    reason,
                    gas,
                    output,
                    after,
                    result,
                );
        },
        CallGate::Run { machine, evm } => {
            let (machine_after, host_after) = choose|
                machine_after: MachineView,
                host_after: EvmView,
            | #[trigger]
                call_ran::<R>(
                    rules,
                    index,
                    machine,
                    evm,
                    reason,
                    gas,
                    output,
                    after,
                    machine_after,
                    host_after,
                );
            lemma_inside_ended(before, mark, evm, host_after, index);
        },
    }
}

/// An attempt to create a contract comes back to the depth at which it was made.
pub proof fn law_create_returns_to_its_depth<R: Runtime>(
    rules: RulesView,
    before: EvmView,
    caller: H160,
    scheme: CreateScheme,
    value: U256,
    init_code: Seq<u8>,
    gas_limit: u64,
    reason: ExitReason,
    address: Option<H160>,
    gas: Gas,
    output: Seq<u8>,
    after: EvmView,
)
    requires
        create_outcome::<R>(
            rules,
            before,
            caller,
            scheme,
            value,
            init_code,
            gas_limit,
            reason,
            address,
            gas,
            output,
            after,
        ),
    ensures
        after.sub.marks == before.sub.marks,
{
    let index = before.sub.marks.len() as int;
    let mark = create_mark(before, caller);
    lemma_create_gate(rules, before, caller, scheme, value, init_code, gas_limit);
    assert(before.sub.marks.push(mark).take(index) =~= before.sub.marks);
    match before.create_gate(rules, caller, scheme, value, init_code, gas_limit) {
        CreateGate::Ended { reason: why, gas: left, evm } => {},
        CreateGate::Run { machine, evm, address: place } => {
            let (ran, machine_after, host_after) = choose|
                ran: ExitReason,
                machine_after: MachineView,
                host_after: EvmView,
            | #[trigger]
                create_ran::<R>(
                    rules,
                    index,
                    machine,
                    evm,
                    place,
                    reason,
                    address,
                    gas,
                    output,
                    after,
                    ran,
                    machine_after,
                    host_after,
                );
            lemma_inside_ended(before, mark, evm, host_after, index);
        },
    }
}

/// A payment to an account without code goes through when it is not nested too deeply,
/// the payer has the value and the payee can hold it. It uses no gas, moves exactly the
/// value, and changes nothing else that can be observed.
#[verifier::spinoff_prover]
#[verifier::rlimit(40)]
pub proof fn law_payment_goes_through(
    rules: RulesView,
    before: EvmView,
    transfer: Transfer,
    input: Seq<u8>,
    gas_limit: u64,
    context: CallContext,
    reason: ExitReason,
    gas: Gas,
    output: Seq<u8>,
    after: EvmView,
)
    requires
        call_outcome::<TransferRuntime>(
            rules,
            before,
            transfer.target,
            Some(transfer),
            input,
            gas_limit,
            context,
            reason,
            gas,
            output,
            after,
        ),
        before.sub.marks.len() < rules.call_stack_limit,
        standing(before, transfer.source).balance >= transfer.value@,
        transfer.source != transfer.target ==> standing(before, transfer.target).balance
            + transfer.value@ < u256_bound(),
        standing(before, transfer.target).code.len() == 0,
        entry_at(before.precompiles, transfer.target) is None,
    ensures
        reason == ExitReason::Succeed(ExitSucceed::Stopped),
        gas == full_gas(gas_limit),
        output == Seq::<u8>::empty(),
        transfer.source != transfer.target ==> {
            &&& standing(after, transfer.source).balance + transfer.value@ == standing(
                before,
                transfer.source,
            ).balance
            &&& standing(after, transfer.target).balance == standing(
                before,
                transfer.target,
            ).balance + transfer.value@
        },
        transfer.source == transfer.target ==> same_world(before, after),
        forall|a: H160|
            a != transfer.source && a != transfer.target ==> #[trigger] standing(after, a)
                == standing(before, a),
        forall|a: H160, i: H256| #[trigger] word(after, a, i) == word(before, a, i),
        after.sub.logs == before.sub.logs,
        after.sub.marks == before.sub.marks,
{
    let index = before.sub.marks.len() as int;
    let (source, target, value) = (transfer.source, transfer.target, transfer.value);
    let coded = before.load_code(target);
    let marked = coded.with_sub(coded.sub.marked());
    let opened = marked.load(context.address);
    law_loading_is_not_observed(before, target, zero_hash());
    law_loading_is_not_observed(marked, context.address, zero_hash());
    law_transfer_moves_value(opened, source, target, value@);
    assert(same_world(coded, marked));
    assert(same_world(before, opened)) by {
        assert forall|a: H160| #[trigger] standing(before, a) == standing(opened, a) by {
            assert(standing(before, a) == standing(coded, a));
            assert(standing(coded, a) == standing(marked, a));
            assert(standing(marked, a) == standing(opened, a));
        }
        assert forall|a: H160, i: H256| #[trigger]
            word(before, a, i) == word(opened, a, i) by {
            assert(word(before, a, i) == word(coded, a, i));
            assert(word(coded, a, i) == word(marked, a, i));
            assert(word(marked, a, i) == word(opened, a, i));
        }
    }
    let (paid, outcome) = opened.sub.transfer(opened.db, source, target, value@);
    assert(standing(opened, source) == standing(before, source));
    assert(standing(opened, target) == standing(before, target));
    assert(outcome is Ok);
    assert(coded.sub.marked().marks.take(index) =~= before.sub.marks);
    let moved = opened.with_sub(paid);
    assert forall|a: H160| #[trigger] standing(after, a) == standing(moved, a) by {}
    assert forall|a: H160, i: H256| #[trigger] word(after, a, i) == word(moved, a, i) by {}
    assert forall|a: H160| a != source && a != target implies #[trigger] standing(after, a)
        == standing(before, a) by {
        assert(standing(moved, a) == standing(opened, a));
        assert(standing(opened, a) == standing(before, a));
    }
    assert forall|a: H160, i: H256| #[trigger] word(after, a, i) == word(before, a, i) by {
        assert(word(moved, a, i) == word(opened, a, i));
        assert(word(opened, a, i) == word(before, a, i));
    }
    if source == target {
        assert forall|a: H160| #[trigger] standing(before, a) == standing(after, a) by {
            assert(standing(moved, a) == standing(opened, a));
            assert(standing(opened, a) == standing(before, a));
        }
    }
}

/// The number of zero bytes is a matter of which bytes there are, in whatever order.
proof fn lemma_zero_bytes(data: Seq<u8>)
    ensures
        zero_bytes(data) == data.to_multiset().count(0),
    decreases data.len(),
{
    reveal(Seq::filter);
    broadcast use vstd::seq_lib::group_to_multiset_ensures;

    if data.len() > 0 {
        lemma_zero_bytes(data.drop_last());
        assert(data =~= data.drop_last().push(data.last()));
    }
}

/// The gas that a transaction uses before any code runs depends only on the length
/// and the number of zero bytes of its input and on the numbers of addresses and of
/// storage indices in its access list. So the order of the bytes does not matter.
pub proof fn law_initial_gas_depends_on_counts(
    rules: RulesView,
    is_create: bool,
    data: Seq<u8>,
    list: Seq<(H160, Vec<H256>)>,
    other_data: Seq<u8>,
    other_list: Seq<(H160, Vec<H256>)>,
)
    requires
        list.len() == other_list.len(),
        listed_slots(list) == listed_slots(other_list),
    ensures
        data.len() == other_data.len() && zero_bytes(data) == zero_bytes(other_data)
            ==> initial_gas(rules, data, is_create, list) == initial_gas(
            rules,
            other_data,
            is_create,
            other_list,
        ),
        data.to_multiset() == other_data.to_multiset() ==> initial_gas(
            rules,
            data,
            is_create,
            list,
        ) == initial_gas(rules, other_data, is_create, other_list),
{
    broadcast use vstd::seq_lib::group_to_multiset_ensures;

    lemma_zero_bytes(data);
    lemma_zero_bytes(other_data);
    assert(data.to_multiset().len() == data.len());
    assert(other_data.to_multiset().len() == other_data.len());
}

/// A transaction that creates a contract uses as much more gas before any code runs
/// than a call with the same input and access list as the rules' base prices differ.
pub proof fn law_creation_differs_by_its_base_price(
    rules: RulesView,
    data: Seq<u8>,
    list: Seq<(H160, Vec<H256>)>,
)
    ensures
        initial_gas(rules, data, true, list) - initial_gas(rules, data, false, list)
            == rules.gas_transaction_create - rules.gas_transaction_call,
{
}

/// A charge is never more than what was used and never less than half of it. It is
/// all of what was used where there is nothing to refund.
pub proof fn law_refund_is_at_most_half(spent: int, refunded: i64)
    requires
        spent >= 0,
    ensures
        gas_charged(spent, refunded) <= spent,
        2 * gas_charged(spent, refunded) >= spent,
        refunded == 0 ==> gas_charged(spent, refunded) == spent,
        0 <= refunded < spent / 2 ==> gas_charged(spent, refunded) == spent - refunded,
{
}

/// A transaction is never charged for more gas than its limit. One that does not
/// run for want of gas is not charged; one that fails is charged for at least half
/// of its limit; another is charged for at least half of what it used before any
/// code ran.
pub proof fn law_charge_is_within_the_limit<R: Runtime>(
    rules: RulesView,
    before: EvmView,
    caller: H160,
    address: H160,
    value: U256,
    data: Seq<u8>,
    gas_limit: u64,
    access_list: Seq<(H160, Vec<H256>)>,
    reason: ExitReason,
    output: Seq<u8>,
    charged: u64,
    accounts: Map<H160, AccountView>,
    after: EvmView,
)
    requires
        call_settled::<R>(
            rules,
            before,
            caller,
            address,
            value,
            data,
            gas_limit,
            access_list,
            reason,
            output,
            charged,
            accounts,
            after,
        ),
    ensures
        charged <= gas_limit,
        gas_limit < initial_gas(rules, data, false, access_list) ==> charged == 0,
        gas_limit >= initial_gas(rules, data, false, access_list) ==> 2 * charged >= initial_gas(
            rules,
            data,
            false,
            access_list,
        ) && (reason is Error ==> 2 * charged >= gas_limit),
{
    let initial = initial_gas(rules, data, false, access_list);
    let ready = before.initialized(rules.precompiles, access_list);
    if gas_limit >= initial {
        let loaded = ready.load(caller);
        let (gas, called) = choose|gas: Gas, called: EvmView| #[trigger]
            call_charged::<R>(
                rules,
                before,
                caller,
                address,
                value,
                data,
                gas_limit,
                access_list,
                reason,
                output,
                charged,
                accounts,
                after,
                gas,
                called,
            );
        lemma_call_outcome::<R>(
            rules,
            loaded.with_sub(loaded.sub.inc_nonce(caller)),
            address,
            Some(Transfer { source: caller, target: address, value }),
            data,
            (gas_limit - initial) as u64,
            CallContext { caller, address, apparent_value: value },
            reason,
            gas,
            output,
            called,
        );
        law_refund_is_at_most_half(
            gas_spent(gas_limit, initial as int, reason, gas),
            gas.refunded,
        );
    }
}

/// The same of a transaction that creates a contract.
pub proof fn law_create_charge_is_within_the_limit<R: Runtime>(
    rules: RulesView,
    before: EvmView,
    caller: H160,
    value: U256,
    init_code: Seq<u8>,
    scheme: CreateScheme,
    gas_limit: u64,
    access_list: Seq<(H160, Vec<H256>)>,
    reason: ExitReason,
    address: Option<H160>,
    charged: u64,
    accounts: Map<H160, AccountView>,
    after: EvmView,
)
    requires
        create_settled::<R>(
            rules,
            before,
            caller,
            value,
            init_code,
            scheme,
            gas_limit,
            access_list,
            reason,
            address,
            charged,
            accounts,
            after,
        ),
    ensures
        charged <= gas_limit,
        gas_limit < initial_gas(rules, init_code, true, access_list) ==> charged == 0,
        gas_limit >= initial_gas(rules, init_code, true, access_list) ==> 2 * charged
            >= initial_gas(rules, init_code, true, access_list) && (reason is Error ==> 2 * charged
            >= gas_limit),
        address is Some <==> reason is Succeed,
{
    let initial = initial_gas(rules, init_code, true, access_list);
    let ready = before.initialized(rules.precompiles, access_list);
    if gas_limit >= initial {
        let (gas, output, created) = choose|gas: Gas, output: Seq<u8>, created: EvmView| #[trigger]
            create_charged::<R>(
                rules,
                before,
                caller,
                value,
                init_code,
                scheme,
                gas_limit,
                access_list,
                reason,
                address,
                charged,
                accounts,
                after,
                gas,
                output,
                created,
            );
        lemma_create_outcome::<R>(
            rules,
            ready,
            caller,
            scheme,
            value,
            init_code,
            (gas_limit - initial) as u64,
            reason,
            address,
            gas,
            output,
            created,
        );
        law_created_contract::<R>(
            rules,
            ready,
            caller,
            scheme,
            value,
            init_code,
            (gas_limit - initial) as u64,
            reason,
            address,
            gas,
            output,
            created,
        );
        law_refund_is_at_most_half(
            gas_spent(gas_limit, initial as int, reason, gas),
            gas.refunded,
        );
    }
}

/// Loading addresses one after the other loads all of them, and changes nothing
/// that can be observed.
proof fn lemma_load_all_warm(evm: EvmView, addresses: Seq<H160>)
    ensures
        same_world(evm, evm.load_all(addresses)),
        forall|k: int|
            0 <= k < addresses.len() ==> evm.load_all(addresses).sub.accounts.contains_key(
                #[trigger] addresses[k],
            ),
    decreases addresses.len(),
{
    if addresses.len() > 0 {
        let rest = addresses.drop_last();
        lemma_load_all_warm(evm, rest);
        law_loading_is_not_observed(evm.load_all(rest), addresses.last(), zero_hash());
        assert forall|k: int| 0 <= k < addresses.len() implies evm.load_all(
            addresses,
        ).sub.accounts.contains_key(#[trigger] addresses[k]) by {
            if k < rest.len() {
                assert(rest[k] == addresses[k]);
            }
        }
    }
}

/// Whether everything that `a` has loaded is loaded in `b` too.
pub open spec fn loads_more(a: EvmView, b: EvmView) -> bool {
    &&& forall|address: H160| #[trigger]
        a.sub.accounts.contains_key(address) ==> b.sub.accounts.contains_key(address)
    &&& forall|address: H160, index: H256| #[trigger]
        a.sub.has_slot(address, index) ==> b.sub.has_slot(address, index)
}

proof fn lemma_load_slots_warm(evm: EvmView, address: H160, indices: Seq<H256>)
    ensures
        same_world(evm, evm.load_slots(address, indices)),
        loads_more(evm, evm.load_slots(address, indices)),
        forall|k: int|
            0 <= k < indices.len() ==> evm.load_slots(address, indices).sub.has_slot(
                address,
                #[trigger] indices[k],
            ),
    decreases indices.len(),
{
    if indices.len() > 0 {
        let rest = indices.drop_last();
        lemma_load_slots_warm(evm, address, rest);
        law_loading_is_not_observed(evm.load_slots(address, rest), address, indices.last());
        assert forall|k: int| 0 <= k < indices.len() implies evm.load_slots(
            address,
            indices,
        ).sub.has_slot(address, #[trigger] indices[k]) by {
            if k < rest.len() {
                assert(rest[k] == indices[k]);
            }
        }
    }
}

proof fn lemma_load_access_list_warm(evm: EvmView, list: Seq<(H160, Vec<H256>)>)
    ensures
        same_world(evm, evm.load_access_list(list)),
        loads_more(evm, evm.load_access_list(list)),
        forall|k: int|
            0 <= k < list.len() ==> evm.load_access_list(list).sub.accounts.contains_key(
                (#[trigger] list[k]).0,
            ),
        forall|k: int, j: int|
            0 <= k < list.len() && 0 <= j < list[k].1@.len() ==> evm.load_access_list(
                list,
            ).sub.has_slot(list[k].0, #[trigger] list[k].1@[j]),
    decreases list.len(),
{
    if list.len() > 0 {
        let rest = list.drop_last();
        let (address, indices) = list.last();
        lemma_load_access_list_warm(evm, rest);
        let before = evm.load_access_list(rest);
        law_loading_is_not_observed(before, address, zero_hash());
        lemma_load_slots_warm(before.load(address), address, indices@);
        let after = evm.load_access_list(list);
        assert(loads_more(before, before.load(address)));
        assert forall|k: int| 0 <= k < list.len() implies after.sub.accounts.contains_key(
            (#[trigger] list[k]).0,
        ) by {
            if k < rest.len() {
                assert(rest[k] == list[k]);
            }
        }
        assert forall|k: int, j: int|
            0 <= k < list.len() && 0 <= j < list[k].1@.len() implies after.sub.has_slot(
            list[k].0,
            #[trigger] list[k].1@[j],
        ) by {
            if k < rest.len() {
                assert(rest[k] == list[k]);
                assert(before.sub.has_slot(rest[k].0, rest[k].1@[j]));
            }
        }
    }
}

/// Getting ready for a transaction changes nothing that can be observed, and leaves
/// every built-in contract and everything in the access list warm.
pub proof fn law_access_list_is_warm(
    before: EvmView,
    precompiles: Seq<Precompile>,
    access_list: Seq<(H160, Vec<H256>)>,
)
    ensures
        same_world(before, before.initialized(precompiles, access_list)),
        before.initialized(precompiles, access_list).precompiles == precompiles,
        forall|k: int|
            0 <= k < precompiles.len() ==> before.initialized(
                precompiles,
                access_list,
            ).sub.accounts.contains_key((#[trigger] precompiles[k]).address),
        forall|k: int|
            0 <= k < access_list.len() ==> before.initialized(
                precompiles,
                access_list,
            ).sub.accounts.contains_key((#[trigger] access_list[k]).0),
        forall|k: int, j: int|
            0 <= k < access_list.len() && 0 <= j < access_list[k].1@.len() ==> before.initialized(
                precompiles,
                access_list,
            ).sub.has_slot(access_list[k].0, #[trigger] access_list[k].1@[j]),
{
    let noted = EvmView { precompiles, ..before };
    lemma_initialized(before, precompiles, access_list);
    lemma_load_all_warm(noted, addresses_of(precompiles));
    lemma_load_access_list_warm(noted.load_all(addresses_of(precompiles)), access_list);
    assert forall|k: int| 0 <= k < precompiles.len() implies before.initialized(
        precompiles,
        access_list,
    ).sub.accounts.contains_key((#[trigger] precompiles[k]).address) by {
        assert(addresses_of(precompiles)[k] == precompiles[k].address);
    }
    assert(same_world(before, noted));
}

/// Whether `accounts` are those of `evm` after `caller` has paid for `charged` gas,
/// as far as that can be told from balances, nonces and code hashes: accounts other
/// than those of the caller and the coinbase are as they were, and where the caller
/// can pay and the coinbase can hold the price, exactly that has been moved.
pub open spec fn only_gas_paid(
    evm: EvmView,
    caller: H160,
    charged: u64,
    accounts: Map<H160, AccountView>,
) -> bool {
    let coinbase = evm.env.block_coinbase;
    let price = charged as nat * evm.env.gas_price@;
    &&& forall|a: H160|
        accounts.contains_key(a) && a != caller && a != coinbase ==> {
            &&& (#[trigger] accounts[a]).info.balance == standing(evm, a).balance
            &&& accounts[a].info.nonce == standing(evm, a).nonce
            &&& accounts[a].info.code_hash == standing(evm, a).code_hash
        }
    &&& caller == coinbase ==> accounts[caller].info.balance == standing(evm, caller).balance
    &&& caller != coinbase && standing(evm, caller).balance >= price && standing(
        evm,
        coinbase,
    ).balance + price < u256_bound() ==> {
        &&& accounts[caller].info.balance + price == standing(evm, caller).balance
        &&& accounts[coinbase].info.balance == standing(evm, coinbase).balance + price
    }
}

/// What settling a transaction hands out, when nothing but the nonce of the caller
/// has changed before.
proof fn lemma_settled(
    before: EvmView,
    ended: EvmView,
    caller: H160,
    charged: u64,
    after: EvmView,
    accounts: Map<H160, AccountView>,
)
    requires
        ended.env == before.env,
        (after, accounts) == ended.settled(caller, charged),
        forall|a: H160| a != caller ==> #[trigger] standing(ended, a) == standing(before, a),
        standing(ended, caller).balance == standing(before, caller).balance,
    ensures
        only_gas_paid(before, caller, charged, accounts),
        accounts[caller].info.nonce == standing(ended, caller).nonce,
{
    let coinbase = ended.env.block_coinbase;
    let price = charged as nat * ended.env.gas_price@;
    let (paid, _) = ended.sub.transfer(ended.db, caller, coinbase, price);
    law_transfer_moves_value(ended, caller, coinbase, price);
    assert forall|a: H160|
        accounts.contains_key(a) && a != caller && a != coinbase implies {
        &&& (#[trigger] accounts[a]).info.balance == standing(before, a).balance
        &&& accounts[a].info.nonce == standing(before, a).nonce
        &&& accounts[a].info.code_hash == standing(before, a).code_hash
    } by {
        assert(standing(ended.with_sub(paid), a) == standing(ended, a));
        assert(standing(ended, a) == standing(before, a));
    }
    assert(coinbase != caller ==> standing(ended, coinbase) == standing(before, coinbase));
}

/// A transaction that runs leaves the machine without accounts, logs or checkpoints,
/// ready for the next one, and hands out the accounts of its sender and of the
/// coinbase. One that fails has still used up its nonce, and apart from that has only
/// paid for its gas.
#[verifier::spinoff_prover]
#[verifier::rlimit(40)]
pub proof fn law_transaction_is_settled<R: Runtime>(
    rules: RulesView,
    before: EvmView,
    caller: H160,
    address: H160,
    value: U256,
    data: Seq<u8>,
    gas_limit: u64,
    access_list: Seq<(H160, Vec<H256>)>,
    reason: ExitReason,
    output: Seq<u8>,
    charged: u64,
    accounts: Map<H160, AccountView>,
    after: EvmView,
)
    requires
        call_settled::<R>(
            rules,
            before,
            caller,
            address,
            value,
            data,
            gas_limit,
            access_list,
            reason,
            output,
            charged,
            accounts,
            after,
        ),
        gas_limit >= initial_gas(rules, data, false, access_list),
    ensures
        after.sub == SubView::empty(),
        after.db == before.db,
        after.env == before.env,
        accounts.contains_key(caller),
        accounts.contains_key(before.env.block_coinbase),
        !(reason is Succeed) ==> {
            &&& accounts[caller].info.nonce == next_nonce(standing(before, caller).nonce)
            &&& only_gas_paid(before, caller, charged, accounts)
        },
{
    let initial = initial_gas(rules, data, false, access_list);
    let ready = before.initialized(rules.precompiles, access_list);
    let loaded = ready.load(caller);
    let sent = loaded.with_sub(loaded.sub.inc_nonce(caller));
    let (gas, called) = choose|gas: Gas, called: EvmView| #[trigger]
        call_charged::<R>(
            rules,
            before,
            caller,
            address,
            value,
            data,
            gas_limit,
            access_list,
            reason,
            output,
            charged,
            accounts,
            after,
            gas,
            called,
        );
    lemma_initialized(before, rules.precompiles, access_list);
    law_access_list_is_warm(before, rules.precompiles, access_list);
    law_loading_is_not_observed(ready, caller, zero_hash());
    lemma_call_outcome::<R>(
        rules,
        sent,
        address,
        Some(Transfer { source: caller, target: address, value }),
        data,
        (gas_limit - initial) as u64,
        CallContext { caller, address, apparent_value: value },
        reason,
        gas,
        output,
        called,
    );
    if !(reason is Succeed) {
        law_failed_call_changes_nothing::<R>(
            rules,
            sent,
            address,
            Some(Transfer { source: caller, target: address, value }),
            data,
            (gas_limit - initial) as u64,
            CallContext { caller, address, apparent_value: value },
            reason,
            gas,
            output,
            called,
        );
        assert forall|a: H160| #[trigger] standing(called, a) == (if a == caller {
            Standing {
                nonce: next_nonce(standing(before, caller).nonce),
                ..standing(before, caller)
            }
        } else {
            standing(before, a)
        }) by {
            assert(standing(called, a) == standing(sent, a));
            assert(standing(loaded, a) == standing(ready, a));
            assert(standing(ready, a) == standing(before, a));
        }
        lemma_settled(before, called, caller, charged, after, accounts);
    }
}

/// The same of a transaction that creates a contract, except that one that fails has
/// used up its nonce exactly if the creation got that far.
#[verifier::spinoff_prover]
#[verifier::rlimit(40)]
pub proof fn law_create_transaction_is_settled<R: Runtime>(
    rules: RulesView,
    before: EvmView,
    caller: H160,
    value: U256,
    init_code: Seq<u8>,
    scheme: CreateScheme,
    gas_limit: u64,
    access_list: Seq<(H160, Vec<H256>)>,
    reason: ExitReason,
    address: Option<H160>,
    charged: u64,
    accounts: Map<H160, AccountView>,
    after: EvmView,
)
    requires
        create_settled::<R>(
            rules,
            before,
            caller,
            value,
            init_code,
            scheme,
            gas_limit,
            access_list,
            reason,
            address,
            charged,
            accounts,
            after,
        ),
        gas_limit >= initial_gas(rules, init_code, true, access_list),
    ensures
        after.sub == SubView::empty(),
        after.db == before.db,
        after.env == before.env,
        accounts.contains_key(caller),
        accounts.contains_key(before.env.block_coinbase),
        !(reason is Succeed) ==> {
            &&& accounts[caller].info.nonce == if raises_nonce(rules, before, caller, value) {
                next_nonce(standing(before, caller).nonce)
            } else {
                standing(before, caller).nonce
            }
            &&& only_gas_paid(before, caller, charged, accounts)
        },
{
    let initial = initial_gas(rules, init_code, true, access_list);
    let ready = before.initialized(rules.precompiles, access_list);
    let (gas, output, created) = choose|gas: Gas, output: Seq<u8>, created: EvmView| #[trigger]
        create_charged::<R>(
            rules,
            before,
            caller,
            value,
            init_code,
            scheme,
            gas_limit,
            access_list,
            reason,
            address,
            charged,
            accounts,
            after,
            gas,
            output,
            created,
        );
    lemma_initialized(before, rules.precompiles, access_list);
    law_access_list_is_warm(before, rules.precompiles, access_list);
    lemma_create_outcome::<R>(
        rules,
        ready,
        caller,
        scheme,
        value,
        init_code,
        (gas_limit - initial) as u64,
        reason,
        address,
        gas,
        output,
        created,
    );
    if !(reason is Succeed) {
        law_failed_create_only_raises_the_nonce::<R>(
            rules,
            ready,
            caller,
            scheme,
            value,
            init_code,
            (gas_limit - initial) as u64,
            reason,
            address,
            gas,
            output,
            created,
        );
        let spent = gas_spent(gas_limit, initial as int, reason, gas);
        let traced = created.traced(
            TraceView::CreateGas { gas_spend: spent as u64, charged, gas },
        );
        assert forall|a: H160| a != caller implies #[trigger] standing(traced, a) == standing(
            before,
            a,
        ) by {
            assert(standing(created, a) == standing(ready, a));
            assert(standing(ready, a) == standing(before, a));
        }
        assert(standing(traced, caller) == standing(created, caller));
        assert(standing(ready, caller) == standing(before, caller));
        lemma_settled(before, traced, caller, charged, after, accounts);
    }
}

/// Whether one operation on a machine, made through `Handler`, `Tracing` or `EVM`
/// itself, can take `before` to `after`.
pub open spec fn operation<R: Runtime>(before: EvmView, after: EvmView) -> bool {
    ||| after == before
    ||| exists|address: H160| after == #[trigger] before.load(address)
    ||| exists|address: H160| after == #[trigger] before.load_code(address)
    ||| exists|address: H160, index: H256| after == #[trigger] before.load_slot(address, index)
    ||| exists|address: H160, index: H256, value: H256|
        after == #[trigger] before.store_slot(address, index, value)
    ||| exists|logs: Seq<LogView>| after == #[trigger] before.logged(logs)
    ||| exists|address: H160, target: H160| after == #[trigger] before.destroy(address, target)
    ||| exists|event: TraceView| after == #[trigger] before.traced(event)
    ||| after == (EvmView { trace: Seq::empty(), ..before })
    ||| calls::<R>(before, after)
    ||| creates::<R>(before, after)
    ||| sends_call::<R>(before, after)
    ||| sends_create::<R>(before, after)
    ||| steps(before, after)
}

/// Whether a part of a call or of a creation, up to the code or after it, can take
/// `before` to `after`.
pub open spec fn steps(before: EvmView, after: EvmView) -> bool {
    ||| exists|
        rules: RulesView,
        code_address: H160,
        transfer: Option<Transfer>,
        input: Seq<u8>,
        gas_limit: u64,
        context: CallContext,
    |
        match #[trigger] before.call_gate(
            rules,
            code_address,
            transfer,
            input,
            gas_limit,
            context,
        ) {
            CallGate::Ended { reason, gas, evm } => after == evm,
            CallGate::Precompiled { precompile, evm } => after == evm,
            CallGate::Run { machine, evm } => after == evm,
        }
    ||| exists|index: int, gas_limit: u64, result: Result<OutputView, ExitError>|
        after == (#[trigger] before.precompile_ended(index, gas_limit, result)).3
    ||| exists|index: int, reason: ExitReason| after == #[trigger] before.ended(index, reason)
    ||| exists|
        rules: RulesView,
        caller: H160,
        scheme: CreateScheme,
        value: U256,
        init_code: Seq<u8>,
        gas_limit: u64,
    |
        match #[trigger] before.create_gate(rules, caller, scheme, value, init_code, gas_limit) {
            CreateGate::Ended { reason, gas, evm } => after == evm,
            CreateGate::Run { machine, evm, address } => after == evm,
        }
    ||| exists|
        index: int,
        address: H160,
        code_hash: H256,
        limit: Option<usize>,
        reason: ExitReason,
        machine: MachineView,
    |
        after == (#[trigger] before.create_ended(
            index,
            address,
            code_hash,
            limit,
            reason,
            machine,
        )).4
}

/// Whether a call can take `before` to `after`.
pub open spec fn calls<R: Runtime>(before: EvmView, after: EvmView) -> bool {
    exists|
        rules: RulesView,
        code_address: H160,
        transfer: Option<Transfer>,
        input: Seq<u8>,
        gas_limit: u64,
        context: CallContext,
        reason: ExitReason,
        gas: Gas,
        output: Seq<u8>,
    | #[trigger]
        call_outcome::<R>(
            rules,
            before,
            code_address,
            transfer,
            input,
            gas_limit,
            context,
            reason,
            gas,
            output,
            after,
        )
}

/// Whether an attempt to create a contract can take `before` to `after`.
pub open spec fn creates<R: Runtime>(before: EvmView, after: EvmView) -> bool {
    exists|
        rules: RulesView,
        caller: H160,
        scheme: CreateScheme,
        value: U256,
        init_code: Seq<u8>,
        gas_limit: u64,
        reason: ExitReason,
        address: Option<H160>,
        gas: Gas,
        output: Seq<u8>,
    | #[trigger]
        create_outcome::<R>(
            rules,
            before,
            caller,
            scheme,
            value,
            init_code,
            gas_limit,
            reason,
            address,
            gas,
            output,
            after,
        )
}

/// Whether a call made as a transaction can take `before` to `after`.
pub open spec fn sends_call<R: Runtime>(before: EvmView, after: EvmView) -> bool {
    exists|
        rules: RulesView,
        caller: H160,
        address: H160,
        value: U256,
        data: Seq<u8>,
        gas_limit: u64,
        access_list: Seq<(H160, Vec<H256>)>,
        reason: ExitReason,
        output: Seq<u8>,
        charged: u64,
        accounts: Map<H160, AccountView>,
    | #[trigger]
        call_settled::<R>(
            rules,
            before,
            caller,
            address,
            value,
            data,
            gas_limit,
            access_list,
            reason,
            output,
            charged,
            accounts,
            after,
        )
}

/// Whether a creation made as a transaction can take `before` to `after`.
pub open spec fn sends_create<R: Runtime>(before: EvmView, after: EvmView) -> bool {
    exists|
        rules: RulesView,
        caller: H160,
        value: U256,
        init_code: Seq<u8>,
        scheme: CreateScheme,
        gas_limit: u64,
        access_list: Seq<(H160, Vec<H256>)>,
        reason: ExitReason,
        address: Option<H160>,
        charged: u64,
        accounts: Map<H160, AccountView>,
    | #[trigger]
        create_settled::<R>(
            rules,
            before,
            caller,
            value,
            init_code,
            scheme,
            gas_limit,
            access_list,
            reason,
            address,
            charged,
            accounts,
            after,
        )
}

/// A transaction keeps the environment and the database.
proof fn lemma_sent<R: Runtime>(before: EvmView, after: EvmView)
    requires
        sends_call::<R>(before, after) || sends_create::<R>(before, after),
    ensures
        after.env == before.env,
        after.db == before.db,
{
    if sends_call::<R>(before, after) {
        let (
            rules,
            caller,
            address,
            value,
            data,
            gas_limit,
            list,
            reason,
            output,
            charged,
            accounts,
        ) = choose|
            rules: RulesView,
            caller: H160,
            address: H160,
            value: U256,
            data: Seq<u8>,
            gas_limit: u64,
            list: Seq<(H160, Vec<H256>)>,
            reason: ExitReason,
            output: Seq<u8>,
            charged: u64,
            accounts: Map<H160, AccountView>,
        | #[trigger]
            call_settled::<R>(
                rules,
                before,
                caller,
                address,
                value,
                data,
                gas_limit,
                list,
                reason,
                output,
                charged,
                accounts,
                after,
            );
        lemma_initialized(before, rules.precompiles, list);
        if gas_limit >= initial_gas(rules, data, false, list) {
            law_transaction_is_settled::<R>(
                rules,
                before,
                caller,
                address,
                value,
                data,
                gas_limit,
                list,
                reason,
                output,
                charged,
                accounts,
                after,
            );
        }
    } else {
        let (
            rules,
            caller,
            value,
            init_code,
            scheme,
            gas_limit,
            list,
            reason,
            address,
            charged,
            accounts,
        ) = choose|
            rules: RulesView,
            caller: H160,
            value: U256,
            init_code: Seq<u8>,
            scheme: CreateScheme,
            gas_limit: u64,
            list: Seq<(H160, Vec<H256>)>,
            reason: ExitReason,
            address: Option<H160>,
            charged: u64,
            accounts: Map<H160, AccountView>,
        | #[trigger]
            create_settled::<R>(
                rules,
                before,
                caller,
                value,
                init_code,
                scheme,
                gas_limit,
                list,
                reason,
                address,
                charged,
                accounts,
                after,
            );
        lemma_initialized(before, rules.precompiles, list);
        if gas_limit >= initial_gas(rules, init_code, true, list) {
            law_create_transaction_is_settled::<R>(
                rules,
                before,
                caller,
                value,
                init_code,
                scheme,
                gas_limit,
                list,
                reason,
                address,
                charged,
                accounts,
                after,
            );
        }
    }
}

/// A call or an attempt to create a contract keeps the environment and the database.
proof fn lemma_called<R: Runtime>(before: EvmView, after: EvmView)
    requires
        calls::<R>(before, after) || creates::<R>(before, after),
    ensures
        after.env == before.env,
        after.db == before.db,
{
    if calls::<R>(before, after) {
        let (rules, code_address, transfer, input, gas_limit, context, reason, gas, output) =
            choose|
            rules: RulesView,
            code_address: H160,
            transfer: Option<Transfer>,
            input: Seq<u8>,
            gas_limit: u64,
            context: CallContext,
            reason: ExitReason,
            gas: Gas,
            output: Seq<u8>,
        | #[trigger]
            call_outcome::<R>(
                rules,
                before,
                code_address,
                transfer,
                input,
                gas_limit,
                context,
                reason,
                gas,
                output,
                after,
            );
        lemma_call_outcome::<R>(
            rules,
            before,
            code_address,
            transfer,
            input,
            gas_limit,
            context,
            reason,
            gas,
            output,
            after,
        );
    } else {
        let (rules, caller, scheme, value, init_code, gas_limit, reason, address, gas, output) =
            choose|
            rules: RulesView,
            caller: H160,
            scheme: CreateScheme,
            value: U256,
            init_code: Seq<u8>,
            gas_limit: u64,
            reason: ExitReason,
            address: Option<H160>,
            gas: Gas,
            output: Seq<u8>,
        | #[trigger]
            create_outcome::<R>(
                rules,
                before,
                caller,
                scheme,
                value,
                init_code,
                gas_limit,
                reason,
                address,
                gas,
                output,
                after,
            );
        lemma_create_outcome::<R>(
            rules,
            before,
            caller,
            scheme,
            value,
            init_code,
            gas_limit,
            reason,
            address,
            gas,
            output,
            after,
        );
    }
}

/// The environment is constant: whatever operations follow one another, it stays as
/// it was at the start, and so does what the database answers.
#[verifier::spinoff_prover]
#[verifier::rlimit(40)]
pub proof fn law_environment_is_constant<R: Runtime>(states: Seq<EvmView>)
    requires
        states.len() > 0,
        forall|i: int|
            0 <= i < states.len() - 1 ==> #[trigger] operation::<R>(states[i], states[i + 1]),
    ensures
        states.last().env == states.first().env,
        states.last().db == states.first().db,
    decreases states.len(),
{
    if states.len() > 1 {
        let earlier = states.drop_last();
        let n = earlier.len() as int;
        assert forall|i: int| 0 <= i < earlier.len() - 1 implies #[trigger] operation::<R>(
            earlier[i],
            earlier[i + 1],
        ) by {
            assert(operation::<R>(states[i], states[i + 1]));
        }
        law_environment_is_constant::<R>(earlier);
        let (before, after) = (states[n - 1], states[n - 1 + 1]);
        assert(operation::<R>(before, after));
        if calls::<R>(before, after) || creates::<R>(before, after) {
            lemma_called::<R>(before, after);
        } else if sends_call::<R>(before, after) || sends_create::<R>(before, after) {
            lemma_sent::<R>(before, after);
        }
    }
}

} // verus!
