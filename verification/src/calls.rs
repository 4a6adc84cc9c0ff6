//! What a call does, told by what can be observed before and after it.
use crate::behaviour::{
    after_payment, law_load, law_load_code, law_transfer, same_setting, same_words, slot_is_warm,
    warms,
};
use crate::env::{CallContext, Transfer};
use crate::error::{ExitError, ExitFatal, ExitReason, ExitSucceed};
use crate::hardfork::RulesView;
use crate::laws::{
    first_word, law_call_returns_to_its_depth, law_failed_call_changes_nothing, same_world,
    standing, word,
};
use crate::machine::{Gas, MachineView};
use crate::model::{CallGate, EvmView};
use crate::precompiles::{entry_at, OutputView, Precompile};
use crate::primitives::{u256_bound, H160, H256};
use crate::runtime::{
    call_mark, call_outcome, call_ran, lemma_call_gate, lemma_call_outcome, lemma_inside_ended,
    precompile_ran, Runtime, TransferRuntime,
};
use crate::trace::TraceView;
use vstd::prelude::*;

verus! {

/// Whether the payer of a transfer lacks the value.
pub open spec fn lacks_funds(evm: EvmView, transfer: Option<Transfer>) -> bool {
    transfer matches Some(t) && standing(evm, t.source).balance < t.value@
}

/// Whether the payee of a transfer cannot hold the value.
pub open spec fn lacks_room(evm: EvmView, transfer: Option<Transfer>) -> bool {
    transfer matches Some(t) && t.source != t.target && standing(evm, t.target).balance
        + t.value@ >= u256_bound()
}

/// Whether a call gets past its checks: it is not nested too deeply, and its value can be
/// moved.
pub open spec fn call_goes_ahead(
    rules: RulesView,
    before: EvmView,
    transfer: Option<Transfer>,
) -> bool {
    &&& before.sub.marks.len() < rules.call_stack_limit
    &&& !lacks_funds(before, transfer)
    &&& !lacks_room(before, transfer)
}

/// The addresses that a transfer is about.
pub open spec fn parties(transfer: Option<Transfer>) -> Set<H160> {
    match transfer {
        Some(t) => set![t.source, t.target],
        None => Set::empty(),
    }
}

/// Whether `b` is `a` with the value of a transfer moved, and nothing else.
pub open spec fn moved(a: EvmView, b: EvmView, transfer: Option<Transfer>) -> bool {
    &&& same_words(a, b)
    &&& forall|x: H160| #[trigger]
        standing(b, x) == match transfer {
            Some(t) => after_payment(standing(a, x), x, t.source, t.target, t.value@),
            None => standing(a, x),
        }
}

/// Whether `entry` is the first of `entries` that stands at `address`.
pub open spec fn is_first_at(entries: Seq<Precompile>, address: H160, entry: Precompile) -> bool {
    exists|k: int|
        {
            &&& 0 <= k < entries.len()
            &&& #[trigger] entries[k] == entry
            &&& entry.address == address
            &&& forall|j: int| 0 <= j < k ==> (#[trigger] entries[j]).address != address
        }
}

/// Whether none of `entries` stands at `address`.
pub open spec fn none_at(entries: Seq<Precompile>, address: H160) -> bool {
    forall|j: int| 0 <= j < entries.len() ==> (#[trigger] entries[j]).address != address
}

/// The built-in contract at an address is the first entry for it, if there is one.
pub proof fn law_entry_at(entries: Seq<Precompile>, address: H160)
    ensures
        entry_at(entries, address) matches Some(entry) ==> is_first_at(entries, address, entry),
        entry_at(entries, address) is None <==> none_at(entries, address),
    decreases entries.len(),
{
    if entries.len() > 0 {
        let rest = entries.drop_first();
        law_entry_at(rest, address);
        if entries[0].address == address {
            assert(is_first_at(entries, address, entries[0]));
        } else if let Some(entry) = entry_at(rest, address) {
            let k = choose|k: int|
                {
                    &&& 0 <= k < rest.len()
                    &&& #[trigger] rest[k] == entry
                    &&& entry.address == address
                    &&& forall|j: int| 0 <= j < k ==> (#[trigger] rest[j]).address != address
                };
            assert(entries[k + 1] == entry);
            assert forall|j: int| 0 <= j < k + 1 implies (#[trigger] entries[j]).address
                != address by {
                if j > 0 {
                    assert(rest[j - 1] == entries[j]);
                }
            }
        } else {
            assert forall|j: int| 0 <= j < entries.len() implies (#[trigger] entries[j]).address
                != address by {
                if j > 0 {
                    assert(rest[j - 1] == entries[j]);
                }
            }
        }
    }
}

/// A call that is nested too deeply, or whose value cannot be moved, is refused with the
/// reason, a meter that has nothing to give and no output. It is reported, the code and,
/// where it is nested too deeply, the account that the code would work on have been
/// loaded, and nothing else has changed.
#[verifier::spinoff_prover]
#[verifier::rlimit(40)]
pub proof fn law_refused_call<R: Runtime>(
    rules: RulesView,
    before: EvmView,
    code_address: H160,
    transfer: Option<Transfer>,
    input: Seq<u8>,
    gas_limit: u64,
    context: CallContext,
    reason: ExitReason,
    gas: Gas,
    output: Seq<u8>,
    after: EvmView,
)
    requires
        call_outcome::<R>(
            rules,
            before,
            code_address,
            transfer,
            input,
            gas_limit,
            context,
            reason,
            gas,
            output,
            after,
        ),
        !call_goes_ahead(rules, before, transfer),
    ensures
        reason == ExitReason::Error(
            if before.sub.marks.len() >= rules.call_stack_limit {
                ExitError::CallTooDeep
            } else if lacks_funds(before, transfer) {
                ExitError::OutOfFund
            } else {
                ExitError::OverflowPayment
            },
        ),
        gas == (Gas { limit: 0, used: 0, refunded: 0 }),
        output.len() == 0,
        same_world(before, after),
        same_setting(before, after),
        after.trace == before.trace.push(
            TraceView::Call {
                call: code_address,
                context,
                transfer,
                input,
                is_static: rules.is_static_call,
            },
        ),
        before.sub.marks.len() >= rules.call_stack_limit ==> {
            &&& warms(before, after, set![code_address, context.address])
            &&& after.sub.marks.len() == before.sub.marks.len() + 1
            &&& after.sub.marks.take(before.sub.marks.len() as int) == before.sub.marks
        },
        before.sub.marks.len() < rules.call_stack_limit ==> {
            &&& warms(before, after, set![code_address])
            &&& after.sub.marks == before.sub.marks
        },
{
    let coded = before.load_code(code_address);
    let marked = coded.with_sub(coded.sub.marked());
    let opened = marked.load(context.address);
    law_load_code(before, code_address);
    law_load(marked, context.address);
    assert(marked.sub.marks.take(before.sub.marks.len() as int) =~= before.sub.marks);
    assert(same_world(coded, marked));
    assert forall|x: H160| #[trigger] standing(before, x) == standing(opened, x) by {
        assert(standing(coded, x) == standing(marked, x));
        assert(standing(marked, x) == standing(opened, x));
    }
    if let Some(t) = transfer {
        law_transfer(opened, t.source, t.target, t.value@);
        assert(standing(opened, t.source) == standing(before, t.source));
        assert(standing(opened, t.target) == standing(before, t.target));
    }
    lemma_call_outcome::<R>(
        rules,
        before,
        code_address,
        transfer,
        input,
        gas_limit,
        context,
        reason,
        gas,
        output,
        after,
    );
    law_failed_call_changes_nothing::<R>(
        rules,
        before,
        code_address,
        transfer,
        input,
        gas_limit,
        context,
        reason,
        gas,
        output,
        after,
    );
}

/// Whether `evm` is `before` as it is inside a call when its code or its built-in contract
/// starts: the value has been moved, the accounts that the call is about have been
/// loaded, there is one more checkpoint, and the call has been reported.
pub open spec fn inside_call(
    rules: RulesView,
    before: EvmView,
    code_address: H160,
    transfer: Option<Transfer>,
    input: Seq<u8>,
    context: CallContext,
    evm: EvmView,
) -> bool {
    &&& same_setting(before, evm)
    &&& moved(before, evm, transfer)
    &&& evm.sub.logs == before.sub.logs
    &&& warms(before, evm, set![code_address, context.address].union(parties(transfer)))
    &&& evm.sub.marks.len() == before.sub.marks.len() + 1
    &&& evm.sub.marks.take(before.sub.marks.len() as int) == before.sub.marks
    &&& evm.trace == before.trace.push(
        TraceView::Call {
            call: code_address,
            context,
            transfer,
            input,
            is_static: rules.is_static_call,
        },
    )
}

/// What a call that goes ahead has before any code runs.
#[verifier::spinoff_prover]
#[verifier::rlimit(40)]
proof fn lemma_call_goes_ahead(
    rules: RulesView,
    before: EvmView,
    code_address: H160,
    transfer: Option<Transfer>,
    input: Seq<u8>,
    gas_limit: u64,
    context: CallContext,
)
    requires
        call_goes_ahead(rules, before, transfer),
    ensures
        match before.call_gate(rules, code_address, transfer, input, gas_limit, context) {
            CallGate::Ended { reason, gas, evm } => false,
            CallGate::Precompiled { precompile, evm } => {
                &&& is_first_at(before.precompiles, code_address, precompile)
                &&& inside_call(rules, before, code_address, transfer, input, context, evm)
                &&& evm.sub.marks[before.sub.marks.len() as int] == call_mark(before, code_address)
            },
            CallGate::Run { machine, evm } => {
                &&& none_at(before.precompiles, code_address)
                &&& inside_call(rules, before, code_address, transfer, input, context, evm)
                &&& evm.sub.marks[before.sub.marks.len() as int] == call_mark(before, code_address)
                &&& machine.contract.code == standing(before, code_address).code
                &&& machine.contract.input == input
                &&& machine.contract.address == context.address
                &&& machine.contract.caller == context.caller
                &&& machine.contract.value == context.apparent_value
                &&& machine.gas == (Gas { limit: gas_limit, used: 0, refunded: 0 })
                &&& machine.stack.len() == 0
                &&& machine.memory.len() == 0
                &&& machine.output.len() == 0
            },
        },
{
    let coded = before.load_code(code_address);
    let marked = coded.with_sub(coded.sub.marked());
    let opened = marked.load(context.address);
    law_load_code(before, code_address);
    law_load(marked, context.address);
    law_entry_at(before.precompiles, code_address);
    assert(marked.sub.marks.take(before.sub.marks.len() as int) =~= before.sub.marks);
    assert(marked.sub.marks[before.sub.marks.len() as int] == call_mark(before, code_address));
    assert(same_world(coded, marked));
    assert forall|x: H160| #[trigger] standing(opened, x) == standing(before, x) by {
        assert(standing(before, x) == standing(coded, x));
        assert(standing(coded, x) == standing(marked, x));
        assert(standing(marked, x) == standing(opened, x));
    }
    assert forall|x: H160, i: H256| #[trigger] word(opened, x, i) == word(before, x, i) by {
        assert(word(before, x, i) == word(coded, x, i));
        assert(word(coded, x, i) == word(marked, x, i));
        assert(word(marked, x, i) == word(opened, x, i));
    }
    assert forall|x: H160, i: H256| #[trigger]
        first_word(opened, x, i) == first_word(before, x, i) by {
        assert(first_word(before, x, i) == first_word(coded, x, i));
        assert(first_word(coded, x, i) == first_word(marked, x, i));
        assert(first_word(marked, x, i) == first_word(opened, x, i));
    }
    assert forall|x: H160, i: H256| #[trigger]
        slot_is_warm(opened, x, i) == slot_is_warm(before, x, i) by {
        assert(slot_is_warm(coded, x, i) == slot_is_warm(before, x, i));
        assert(slot_is_warm(marked, x, i) == slot_is_warm(coded, x, i));
    }
    let event = TraceView::Call {
        call: code_address,
        context,
        transfer,
        input,
        is_static: rules.is_static_call,
    };
    let reported = opened.traced(event);
    let paid = match transfer {
        Some(t) => reported.with_sub(
            reported.sub.transfer(reported.db, t.source, t.target, t.value@).0,
        ),
        None => reported,
    };
    assert forall|x: H160| #[trigger] standing(reported, x) == standing(before, x) by {
        assert(standing(reported, x) == standing(opened, x));
    }
    assert forall|x: H160, i: H256| #[trigger] word(reported, x, i) == word(before, x, i) by {
        assert(word(reported, x, i) == word(opened, x, i));
    }
    assert forall|x: H160, i: H256| #[trigger]
        first_word(reported, x, i) == first_word(before, x, i) by {
        assert(first_word(reported, x, i) == first_word(opened, x, i));
    }
    assert forall|x: H160, i: H256| #[trigger]
        slot_is_warm(reported, x, i) == slot_is_warm(before, x, i) by {
        assert(slot_is_warm(reported, x, i) == slot_is_warm(opened, x, i));
    }
    if let Some(t) = transfer {
        law_transfer(reported, t.source, t.target, t.value@);
        assert(standing(reported, t.source) == standing(before, t.source));
        assert(standing(reported, t.target) == standing(before, t.target));
    }
    assert(inside_call(rules, before, code_address, transfer, input, context, paid)) by {
        assert forall|x: H160| #[trigger] paid.sub.accounts.contains_key(x) <==> (
        before.sub.accounts.contains_key(x) || set![code_address, context.address].union(
            parties(transfer),
        ).contains(x)) by {
            assert(coded.sub.accounts.contains_key(x) <==> before.sub.accounts.contains_key(x) || x
                == code_address);
        }
        assert forall|x: H160, i: H256| #[trigger]
            slot_is_warm(paid, x, i) == slot_is_warm(before, x, i) by {
            assert(slot_is_warm(reported, x, i) == slot_is_warm(before, x, i));
        }
        assert forall|x: H160, i: H256| #[trigger] word(before, x, i) == word(paid, x, i) by {
            assert(word(reported, x, i) == word(before, x, i));
        }
        assert forall|x: H160, i: H256| #[trigger]
            first_word(before, x, i) == first_word(paid, x, i) by {
            assert(first_word(reported, x, i) == first_word(before, x, i));
        }
        assert forall|x: H160| #[trigger]
            standing(paid, x) == match transfer {
                Some(t) => after_payment(standing(before, x), x, t.source, t.target, t.value@),
                None => standing(before, x),
            } by {
            assert(standing(reported, x) == standing(before, x));
        }
    }
}

/// A call that goes ahead to an address with a built-in contract ends as that contract
/// does when it is given exactly the input, the gas and the context of the call. If the
/// contract gives a result, that is the output, its cost has been used if the gas covers
/// it, its logs have been added and the value has been moved. If it fails, the call fails
/// for the same reason, has used no gas and has changed nothing.
#[verifier::spinoff_prover]
#[verifier::rlimit(40)]
pub proof fn law_call_of_built_in_contract<R: Runtime>(
    rules: RulesView,
    before: EvmView,
    code_address: H160,
    transfer: Option<Transfer>,
    input: Seq<u8>,
    gas_limit: u64,
    context: CallContext,
    reason: ExitReason,
    gas: Gas,
    output: Seq<u8>,
    after: EvmView,
)
    requires
        call_outcome::<R>(
            rules,
            before,
            code_address,
            transfer,
            input,
            gas_limit,
            context,
            reason,
            gas,
            output,
            after,
        ),
        call_goes_ahead(rules, before, transfer),
        !none_at(before.precompiles, code_address),
    ensures
        exists|precompile: Precompile, result: Result<OutputView, ExitError>|
            {
                &&& is_first_at(before.precompiles, code_address, precompile)
                &&& #[trigger] R::precompiled(
                    precompile,
                    input,
                    gas_limit,
                    context,
                    rules.is_static_call,
                    result,
                )
                &&& match result {
                    Ok(out) => {
                        &&& reason == ExitReason::Succeed(ExitSucceed::Returned)
                        &&& gas == (Gas {
                            limit: gas_limit,
                            used: if out.cost <= gas_limit {
                                out.cost
                            } else {
                                0
                            },
                            refunded: 0,
                        })
                        &&& output == out.output
                        &&& moved(before, after, transfer)
                        &&& after.sub.logs == before.sub.logs + out.logs
                        &&& warms(
                            before,
                            after,
                            set![code_address, context.address].union(parties(transfer)),
                        )
                    },
                    Err(error) => {
                        &&& reason == ExitReason::Error(error)
                        &&& gas == (Gas { limit: gas_limit, used: 0, refunded: 0 })
                        &&& output.len() == 0
                        &&& same_world(before, after)
                        &&& warms(before, after, set![code_address])
                    },
                }
            },
        same_setting(before, after),
        after.sub.marks == before.sub.marks,
        after.trace == before.trace.push(
            TraceView::Call {
                call: code_address,
                context,
                transfer,
                input,
                is_static: rules.is_static_call,
            },
        ),
{
    let index = before.sub.marks.len() as int;
    lemma_call_goes_ahead(rules, before, code_address, transfer, input, gas_limit, context);
    law_load_code(before, code_address);
    let gate = before.call_gate(rules, code_address, transfer, input, gas_limit, context);
    let precompile = gate->Precompiled_precompile;
    let evm = gate->Precompiled_evm;
    let result = choose|result: Result<OutputView, ExitError>| #[trigger]
        precompile_ran::<R>(
            rules,
            index,
            precompile,
            evm,
            input,
            gas_limit,
            context,
            reason,
            gas,
            output,
            after,
            result,
        );
    assert(R::precompiled(precompile, input, gas_limit, context, rules.is_static_call, result));
    if result is Ok {
        assert forall|x: H160| #[trigger] standing(after, x) == standing(evm, x) by {}
        assert forall|x: H160, i: H256| #[trigger] word(before, x, i) == word(after, x, i) by {
            assert(word(after, x, i) == word(evm, x, i));
        }
        assert forall|x: H160, i: H256| #[trigger]
            first_word(before, x, i) == first_word(after, x, i) by {
            assert(first_word(after, x, i) == first_word(evm, x, i));
        }
        assert forall|x: H160, i: H256| #[trigger]
            slot_is_warm(after, x, i) == slot_is_warm(before, x, i) by {
            assert(slot_is_warm(after, x, i) == slot_is_warm(evm, x, i));
        }
        assert(after.sub.logs == before.sub.logs + result->Ok_0.logs);
    } else {
        let coded = before.load_code(code_address);
        assert forall|x: H160| #[trigger] standing(before, x) == standing(after, x) by {
            assert(standing(before, x) == standing(coded, x));
        }
        assert forall|x: H160, i: H256| #[trigger] word(before, x, i) == word(after, x, i) by {
            assert(word(before, x, i) == word(coded, x, i));
        }
        assert forall|x: H160, i: H256| #[trigger]
            first_word(before, x, i) == first_word(after, x, i) by {
            assert(first_word(before, x, i) == first_word(coded, x, i));
        }
        assert forall|x: H160, i: H256| #[trigger]
            slot_is_warm(after, x, i) == slot_is_warm(before, x, i) by {
            assert(slot_is_warm(after, x, i) == slot_is_warm(coded, x, i));
        }
    }
}

/// A call that goes ahead to an address without a built-in contract runs the code there,
/// with exactly the input, the gas and the context of the call and with the value moved.
/// It ends as the code does, with its meter and its output. If the code succeeds, in
/// whatever way and however deeply the call is nested, everything that it left stays; if
/// not, nothing has changed. The reports stay either way.
#[verifier::spinoff_prover]
#[verifier::rlimit(40)]
pub proof fn law_call_of_code<R: Runtime>(
    rules: RulesView,
    before: EvmView,
    code_address: H160,
    transfer: Option<Transfer>,
    input: Seq<u8>,
    gas_limit: u64,
    context: CallContext,
    reason: ExitReason,
    gas: Gas,
    output: Seq<u8>,
    after: EvmView,
)
    requires
        call_outcome::<R>(
            rules,
            before,
            code_address,
            transfer,
            input,
            gas_limit,
            context,
            reason,
            gas,
            output,
            after,
        ),
        call_goes_ahead(rules, before, transfer),
        none_at(before.precompiles, code_address),
    ensures
        exists|
            machine: MachineView,
            evm: EvmView,
            machine_after: MachineView,
            host_after: EvmView,
        |
            {
                &&& #[trigger] R::runs(rules, machine, evm, reason, machine_after, host_after)
                &&& inside_call(rules, before, code_address, transfer, input, context, evm)
                &&& machine.contract.code == standing(before, code_address).code
                &&& machine.contract.input == input
                &&& machine.contract.address == context.address
                &&& machine.contract.caller == context.caller
                &&& machine.contract.value == context.apparent_value
                &&& machine.gas == (Gas { limit: gas_limit, used: 0, refunded: 0 })
                &&& machine.stack.len() == 0
                &&& machine.memory.len() == 0
                &&& machine.output.len() == 0
                &&& gas == machine_after.gas
                &&& gas.limit == gas_limit
                &&& gas.used <= gas.limit
                &&& output == machine_after.output
                &&& after.trace == host_after.trace
                &&& reason is Succeed ==> {
                    &&& after.sub.accounts == host_after.sub.accounts
                    &&& after.sub.logs == host_after.sub.logs
                }
                &&& !(reason is Succeed) ==> {
                    &&& same_world(before, after)
                    &&& warms(before, after, set![code_address])
                }
            },
        same_setting(before, after),
        after.sub.marks == before.sub.marks,
{
    let index = before.sub.marks.len() as int;
    lemma_call_goes_ahead(rules, before, code_address, transfer, input, gas_limit, context);
    lemma_call_outcome::<R>(
        rules,
        before,
        code_address,
        transfer,
        input,
        gas_limit,
        context,
        reason,
        gas,
        output,
        after,
    );
    law_call_returns_to_its_depth::<R>(
        rules,
        before,
        code_address,
        transfer,
        input,
        gas_limit,
        context,
        reason,
        gas,
        output,
        after,
    );
    law_load_code(before, code_address);
    let gate = before.call_gate(rules, code_address, transfer, input, gas_limit, context);
    let machine = gate->Run_machine;
    let evm = gate->Run_evm;
    let (machine_after, host_after) = choose|machine_after: MachineView, host_after: EvmView|
        #[trigger]
        call_ran::<R>(
            rules,
            index,
            machine,
            evm,
            reason,
            gas,
            output,
            after,
            machine_after,
            host_after,
        );
    assert(R::runs(rules, machine, evm, reason, machine_after, host_after));
    if !(reason is Succeed) {
        law_failed_call_changes_nothing::<R>(
            rules,
            before,
            code_address,
            transfer,
            input,
            gas_limit,
            context,
            reason,
            gas,
            output,
            after,
        );
        lemma_call_gate(rules, before, code_address, transfer, input, gas_limit, context);
        lemma_inside_ended(before, call_mark(before, code_address), evm, host_after, index);
        let coded = before.load_code(code_address);
        assert(after.sub.accounts == coded.sub.accounts);
        assert forall|x: H160, i: H256| #[trigger]
            slot_is_warm(after, x, i) == slot_is_warm(before, x, i) by {
            assert(slot_is_warm(after, x, i) == slot_is_warm(coded, x, i));
        }
    }
}

/// When code that ran inside a checkpoint ends, in whatever way it succeeds, everything
/// that it left stays; otherwise everything is as the checkpoint has it. The checkpoint
/// and all inside it are closed either way.
pub proof fn law_ended(evm: EvmView, index: int, reason: ExitReason)
    ensures
        ({
            let after = evm.ended(index, reason);
            &&& after.sub.accounts == if reason is Succeed {
                evm.sub.accounts
            } else {
                evm.sub.marks[index].accounts
            }
            &&& after.sub.logs == if reason is Succeed {
                evm.sub.logs
            } else {
                evm.sub.marks[index].logs
            }
            &&& after.sub.marks == evm.sub.marks.take(index)
            &&& same_setting(evm, after)
            &&& after.trace == evm.trace
        }),
{
}

/// When a built-in contract that ran inside a checkpoint gives a result, its cost is used if
/// the gas covers it, and its logs are added to what there is; when it fails, everything is
/// as the checkpoint has it and no gas is used. The checkpoint and all inside it are closed
/// either way.
pub proof fn law_precompile_ended(
    evm: EvmView,
    index: int,
    gas_limit: u64,
    result: Result<OutputView, ExitError>,
)
    ensures
        ({
            let (reason, gas, output, after) = evm.precompile_ended(index, gas_limit, result);
            &&& gas.limit == gas_limit
            &&& gas.refunded == 0
            &&& after.sub.marks == evm.sub.marks.take(index)
            &&& same_setting(evm, after)
            &&& after.trace == evm.trace
            &&& match result {
                Ok(out) => {
                    &&& reason == ExitReason::Succeed(ExitSucceed::Returned)
                    &&& gas.used == if out.cost <= gas_limit {
                        out.cost
                    } else {
                        0
                    }
                    &&& output == out.output
                    &&& after.sub.accounts == evm.sub.accounts
                    &&& after.sub.logs == evm.sub.logs + out.logs
                },
                Err(error) => {
                    &&& reason == ExitReason::Error(error)
                    &&& gas.used == 0
                    &&& output.len() == 0
                    &&& after.sub.accounts == evm.sub.marks[index].accounts
                    &&& after.sub.logs == evm.sub.marks[index].logs
                },
            }
        }),
{
}

/// Without instructions, a call that goes ahead succeeds exactly if there is neither code nor
/// a built-in contract at the address. It uses no gas and gives no output, and moves the
/// value if it succeeds; otherwise nothing changes.
#[verifier::spinoff_prover]
#[verifier::rlimit(40)]
pub proof fn law_call_without_instructions(
    rules: RulesView,
    before: EvmView,
    code_address: H160,
    transfer: Option<Transfer>,
    input: Seq<u8>,
    gas_limit: u64,
    context: CallContext,
    reason: ExitReason,
    gas: Gas,
    output: Seq<u8>,
    after: EvmView,
)
    requires
        call_outcome::<TransferRuntime>(
            rules,
            before,
            code_address,
            transfer,
            input,
            gas_limit,
            context,
            reason,
            gas,
            output,
            after,
        ),
        call_goes_ahead(rules, before, transfer),
    ensures
        reason == if !none_at(before.precompiles, code_address) {
            ExitReason::Error(ExitError::PrecompileFailed)
        } else if standing(before, code_address).code.len() == 0 {
            ExitReason::Succeed(ExitSucceed::Stopped)
        } else {
            ExitReason::Fatal(ExitFatal::NotSupported)
        },
        gas == (Gas { limit: gas_limit, used: 0, refunded: 0 }),
        output.len() == 0,
        !(reason is Succeed) ==> same_world(before, after),
        reason is Succeed ==> moved(before, after, transfer) && after.sub.logs == before.sub.logs,
{
    if none_at(before.precompiles, code_address) {
        law_call_of_code::<TransferRuntime>(
            rules,
            before,
            code_address,
            transfer,
            input,
            gas_limit,
            context,
            reason,
            gas,
            output,
            after,
        );
        let (machine, evm, machine_after, host_after) = choose|
            machine: MachineView,
            evm: EvmView,
            machine_after: MachineView,
            host_after: EvmView,
        |
            {
                &&& #[trigger] TransferRuntime::runs(
                    rules,
                    machine,
                    evm,
                    reason,
                    machine_after,
                    host_after,
                )
                &&& inside_call(rules, before, code_address, transfer, input, context, evm)
                &&& machine.contract.code == standing(before, code_address).code
                &&& machine.gas == (Gas { limit: gas_limit, used: 0, refunded: 0 })
                &&& machine.output.len() == 0
                &&& gas == machine_after.gas
                &&& output == machine_after.output
                &&& reason is Succeed ==> {
                    &&& after.sub.accounts == host_after.sub.accounts
                    &&& after.sub.logs == host_after.sub.logs
                }
                &&& !(reason is Succeed) ==> same_world(before, after)
            };
        if reason is Succeed {
            assert forall|x: H160| #[trigger] standing(after, x) == standing(evm, x) by {}
            assert forall|x: H160, i: H256| #[trigger] word(before, x, i) == word(after, x, i) by {
                assert(word(after, x, i) == word(evm, x, i));
            }
            assert forall|x: H160, i: H256| #[trigger]
                first_word(before, x, i) == first_word(after, x, i) by {
                assert(first_word(after, x, i) == first_word(evm, x, i));
            }
        }
    } else {
        law_call_of_built_in_contract::<TransferRuntime>(
            rules,
            before,
            code_address,
            transfer,
            input,
            gas_limit,
            context,
            reason,
            gas,
            output,
            after,
        );
    }
}

} // verus!
