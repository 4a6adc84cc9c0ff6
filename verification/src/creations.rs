//! What the creation of a contract does, told by what can be observed before and
//! after it.
use crate::behaviour::{
    after_payment, law_inc_nonce, law_load, law_new_contract, law_set_code, law_transfer,
    same_frame, same_setting, same_words, slot_is_warm, warms,
};
use crate::calls::{law_entry_at, none_at};
use crate::digest::hash_of;
use crate::env::CreateScheme;
use crate::error::{ExitError, ExitReason, ExitSucceed};
use crate::hardfork::RulesView;
use crate::laws::{first_word, law_create_returns_to_its_depth, standing, word, Standing};
use crate::machine::{Gas, MachineView};
use crate::model::{CreateGate, EvmView};
use crate::precompiles::{addresses_of, law_built_in_contract_is_found};
use crate::primitives::{u256_bound, zero_hash, H160, H256, U256};
use crate::runtime::{
    create_mark, create_outcome, create_ran, lemma_create_gate, lemma_create_outcome,
    lemma_inside_ended, Runtime,
};
use crate::subroutine::next_nonce;
use crate::util::{address_by_nonce, address_by_salt};
use vstd::prelude::*;

verus! {

/// Where `caller` creates a contract: that is determined by its nonce, or by a salt and
/// the init code.
pub open spec fn place_of(
    before: EvmView,
    caller: H160,
    scheme: CreateScheme,
    init_code: Seq<u8>,
) -> H160 {
    match scheme {
        CreateScheme::Create => address_by_nonce(caller, standing(before, caller).nonce),
        CreateScheme::Create2 { salt } => address_by_salt(caller, hash_of(init_code), salt),
    }
}

/// The account at `x` once the nonce of `caller` has been raised.
pub open spec fn with_raised_nonce(before: EvmView, caller: H160, x: H160) -> Standing {
    if x == caller {
        Standing { nonce: next_nonce(standing(before, x).nonce), ..standing(before, x) }
    } else {
        standing(before, x)
    }
}

/// Whether the place of a new contract is taken, by a nonce, by code or by a built-in
/// contract.
pub open spec fn is_taken(before: EvmView, caller: H160, place: H160) -> bool {
    ||| with_raised_nonce(before, caller, place).nonce != 0
    ||| standing(before, place).code.len() != 0
    ||| !none_at(before.precompiles, place)
}

/// Whether a creation gets past its checks: it is not nested too deeply, the creator has
/// the value, the place is free, and it can hold the value.
pub open spec fn create_goes_ahead(
    rules: RulesView,
    before: EvmView,
    caller: H160,
    value: U256,
    place: H160,
) -> bool {
    &&& before.sub.marks.len() <= rules.call_stack_limit
    &&& standing(before, caller).balance >= value@
    &&& !is_taken(before, caller, place)
    &&& caller != place ==> standing(before, place).balance + value@ < u256_bound()
}

/// Whether `after` is `before` with `caller` loaded and, if `raised`, its nonce raised, and
/// nothing else.
pub open spec fn only_nonce(before: EvmView, after: EvmView, caller: H160, raised: bool) -> bool {
    &&& same_words(before, after)
    &&& after.sub.logs == before.sub.logs
    &&& warms(before, after, set![caller])
    &&& forall|x: H160| #[trigger]
        standing(after, x) == if raised {
            with_raised_nonce(before, caller, x)
        } else {
            standing(before, x)
        }
}

/// Whether `evm` is `before` as it is when init code starts: the nonce of the creator has
/// been raised, a contract with an empty storage has been started at `place`, the value
/// has been moved to it, and there is one more checkpoint.
pub open spec fn inside_creation(
    rules: RulesView,
    before: EvmView,
    caller: H160,
    value: U256,
    place: H160,
    evm: EvmView,
) -> bool {
    &&& same_setting(before, evm)
    &&& evm.trace == before.trace
    &&& evm.sub.logs == before.sub.logs
    &&& evm.sub.marks.len() == before.sub.marks.len() + 1
    &&& evm.sub.marks.take(before.sub.marks.len() as int) == before.sub.marks
    &&& forall|x: H160| #[trigger]
        evm.sub.accounts.contains_key(x) <==> before.sub.accounts.contains_key(x) || x == caller
            || x == place
    &&& forall|x: H160, i: H256| #[trigger]
        slot_is_warm(evm, x, i) <==> slot_is_warm(before, x, i) && x != place
    &&& forall|x: H160, i: H256| #[trigger]
        word(evm, x, i) == if x == place {
            zero_hash()
        } else {
            word(before, x, i)
        }
    &&& forall|x: H160, i: H256| #[trigger]
        first_word(evm, x, i) == if x == place {
            zero_hash()
        } else {
            first_word(before, x, i)
        }
    &&& forall|x: H160| #[trigger]
        standing(evm, x) == {
            let paid = after_payment(
                with_raised_nonce(before, caller, x),
                x,
                caller,
                place,
                value@,
            );
            if x == place {
                Standing {
                    created: true,
                    nonce: if rules.create_increase_nonce {
                        1
                    } else {
                        0
                    },
                    ..paid
                }
            } else {
                paid
            }
        }
}

/// What a creation has before any code runs, or why it does not go ahead.
#[verifier::spinoff_prover]
#[verifier::rlimit(40)]
proof fn lemma_create_prepared(
    rules: RulesView,
    before: EvmView,
    caller: H160,
    scheme: CreateScheme,
    value: U256,
    init_code: Seq<u8>,
    gas_limit: u64,
)
    ensures
        ({
            let place = place_of(before, caller, scheme, init_code);
            let deep = before.sub.marks.len() > rules.call_stack_limit;
            let short = standing(before, caller).balance < value@;
            match before.create_gate(rules, caller, scheme, value, init_code, gas_limit) {
                CreateGate::Ended { reason, gas, evm } => {
                    &&& !create_goes_ahead(rules, before, caller, value, place)
                    &&& reason == ExitReason::Error(
                        if deep {
                            ExitError::CallTooDeep
                        } else if short {
                            ExitError::OutOfFund
                        } else if is_taken(before, caller, place) {
                            ExitError::CreateCollision
                        } else {
                            ExitError::OverflowPayment
                        },
                    )
                    &&& gas == (Gas {
                        limit: if !deep && short {
                            0
                        } else {
                            gas_limit
                        },
                        used: 0,
                        refunded: 0,
                    })
                    &&& same_frame(before, evm)
                    &&& only_nonce(before, evm, caller, !deep && !short)
                },
                CreateGate::Run { machine, evm, address } => {
                    &&& create_goes_ahead(rules, before, caller, value, place)
                    &&& address == place
                    &&& inside_creation(rules, before, caller, value, place, evm)
                    &&& evm.sub.marks[before.sub.marks.len() as int] == create_mark(before, caller)
                    &&& machine.contract.code == init_code
                    &&& machine.contract.input.len() == 0
                    &&& machine.contract.address == place
                    &&& machine.contract.caller == caller
                    &&& machine.contract.value == value
                    &&& machine.gas == (Gas { limit: gas_limit, used: 0, refunded: 0 })
                    &&& machine.stack.len() == 0
                    &&& machine.memory.len() == 0
                    &&& machine.output.len() == 0
                },
            }
        }),
{
    let place = place_of(before, caller, scheme, init_code);
    let loaded = before.load(caller);
    let raised = loaded.with_sub(loaded.sub.inc_nonce(caller));
    let marked = raised.with_sub(raised.sub.marked());
    let index = before.sub.marks.len() as int;
    law_load(before, caller);
    law_inc_nonce(loaded, caller);
    assert(standing(loaded, caller) == standing(before, caller));
    assert(marked.sub.marks.take(index) =~= before.sub.marks);
    assert(marked.sub.marks[index] == create_mark(before, caller));
    law_entry_at(before.precompiles, place);
    law_built_in_contract_is_found(before.precompiles, place);
    assert(only_nonce(before, loaded, caller, false)) by {
        assert forall|x: H160| #[trigger] standing(loaded, x) == standing(before, x) by {
            assert(standing(before, x) == standing(loaded, x));
        }
    }
    assert(only_nonce(before, raised, caller, true)) by {
        assert forall|x: H160| #[trigger]
            standing(raised, x) == with_raised_nonce(before, caller, x) by {
            assert(standing(before, x) == standing(loaded, x));
        }
        assert forall|x: H160, i: H256| #[trigger] word(before, x, i) == word(raised, x, i) by {
            assert(word(before, x, i) == word(loaded, x, i));
            assert(word(loaded, x, i) == word(raised, x, i));
        }
        assert forall|x: H160, i: H256| #[trigger]
            first_word(before, x, i) == first_word(raised, x, i) by {
            assert(first_word(before, x, i) == first_word(loaded, x, i));
            assert(first_word(loaded, x, i) == first_word(raised, x, i));
        }
        assert forall|x: H160, i: H256| #[trigger]
            slot_is_warm(raised, x, i) == slot_is_warm(before, x, i) by {
            assert(slot_is_warm(loaded, x, i) == slot_is_warm(before, x, i));
        }
    }
    let (sub, free) = marked.sub.new_contract(marked.db, place, addresses_of(before.precompiles));
    let started = marked.with_sub(sub);
    law_new_contract(marked, place, addresses_of(before.precompiles));
    assert forall|x: H160| #[trigger]
        standing(marked, x) == with_raised_nonce(before, caller, x) by {
        assert(standing(marked, x) == standing(raised, x));
    }
    assert(free == !is_taken(before, caller, place));
    let (paid_sub, outcome) = started.sub.transfer(started.db, caller, place, value@);
    let paid = started.with_sub(paid_sub);
    law_transfer(started, caller, place, value@);
    if free {
        assert(standing(started, caller).balance == standing(before, caller).balance);
        assert(standing(started, place).balance == standing(before, place).balance);
        law_inc_nonce(paid, place);
        let evm = if rules.create_increase_nonce {
            paid.with_sub(paid.sub.inc_nonce(place))
        } else {
            paid
        };
        if create_goes_ahead(rules, before, caller, value, place) {
            assert forall|x: H160| #[trigger]
                standing(evm, x) == {
                    let moved = after_payment(
                        with_raised_nonce(before, caller, x),
                        x,
                        caller,
                        place,
                        value@,
                    );
                    if x == place {
                        Standing {
                            created: true,
                            nonce: if rules.create_increase_nonce {
                                1
                            } else {
                                0
                            },
                            ..moved
                        }
                    } else {
                        moved
                    }
                } by {
                assert(standing(marked, x) == with_raised_nonce(before, caller, x));
                assert(standing(paid, x) == after_payment(
                    standing(started, x),
                    x,
                    caller,
                    place,
                    value@,
                ));
            }
            assert forall|x: H160, i: H256| #[trigger]
                word(evm, x, i) == if x == place {
                    zero_hash()
                } else {
                    word(before, x, i)
                } by {
                assert(word(before, x, i) == word(raised, x, i));
                assert(word(raised, x, i) == word(marked, x, i));
                assert(word(started, x, i) == word(paid, x, i));
                assert(word(paid, x, i) == word(evm, x, i));
            }
            assert forall|x: H160, i: H256| #[trigger]
                first_word(evm, x, i) == if x == place {
                    zero_hash()
                } else {
                    first_word(before, x, i)
                } by {
                assert(first_word(before, x, i) == first_word(raised, x, i));
                assert(first_word(raised, x, i) == first_word(marked, x, i));
                assert(first_word(started, x, i) == first_word(paid, x, i));
                assert(first_word(paid, x, i) == first_word(evm, x, i));
            }
            assert forall|x: H160, i: H256| #[trigger]
                slot_is_warm(evm, x, i) == (slot_is_warm(before, x, i) && x != place) by {
                assert(slot_is_warm(raised, x, i) == slot_is_warm(before, x, i));
                assert(slot_is_warm(marked, x, i) == slot_is_warm(raised, x, i));
                assert(slot_is_warm(paid, x, i) == slot_is_warm(started, x, i));
            }
            assert forall|x: H160| #[trigger]
                evm.sub.accounts.contains_key(x) == (before.sub.accounts.contains_key(x) || x
                    == caller || x == place) by {
                assert(raised.sub.accounts.contains_key(x) == (before.sub.accounts.contains_key(x)
                    || x == caller));
                assert(paid.sub.accounts.contains_key(x) == (started.sub.accounts.contains_key(x)
                    || set![caller, place].contains(x)));
            }
            assert(inside_creation(rules, before, caller, value, place, evm));
        }
    }
}

/// A creation that does not go ahead is refused with the reason, without an address and
/// without output. Its meter is full, or empty where the creator lacks the value. The
/// nonce of the creator has been raised if the creation was neither nested too deeply nor
/// lacked funds, and nothing else has changed.
pub proof fn law_refused_creation<R: Runtime>(
    rules: RulesView,
    before: EvmView,
    caller: H160,
    scheme: CreateScheme,
    value: U256,
    init_code: Seq<u8>,
    gas_limit: u64,
    reason: ExitReason,
    address: Option<H160>,
    gas: Gas,
    output: Seq<u8>,
    after: EvmView,
)
    requires
        create_outcome::<R>(
            rules,
            before,
            caller,
            scheme,
            value,
            init_code,
            gas_limit,
            reason,
            address,
            gas,
            output,
            after,
        ),
        !create_goes_ahead(
            rules,
            before,
            caller,
            value,
            place_of(before, caller, scheme, init_code),
        ),
    ensures
        ({
            let deep = before.sub.marks.len() > rules.call_stack_limit;
            let short = standing(before, caller).balance < value@;
            &&& reason == ExitReason::Error(
                if deep {
                    ExitError::CallTooDeep
                } else if short {
                    ExitError::OutOfFund
                } else if is_taken(
                    before,
                    caller,
                    place_of(before, caller, scheme, init_code),
                ) {
                    ExitError::CreateCollision
                } else {
                    ExitError::OverflowPayment
                },
            )
            &&& gas == (Gas {
                limit: if !deep && short {
                    0
                } else {
                    gas_limit
                },
                used: 0,
                refunded: 0,
            })
            &&& only_nonce(before, after, caller, !deep && !short)
        }),
        address is None,
        output.len() == 0,
        same_frame(before, after),
{
    lemma_create_prepared(rules, before, caller, scheme, value, init_code, gas_limit);
}

/// A creation that goes ahead runs the init code for its creator, at its place, with the
/// value moved there, without input and with all of its gas. It succeeds exactly if the
/// init code does, its output is not longer than the rules allow, and 200 gas for each
/// byte of it are left. Then that output is the code of the contract, those 200 gas have
/// been used, and what the init code left stays. Otherwise only the nonce of the creator
/// has been raised, and the meter is that of the init code.
#[verifier::spinoff_prover]
#[verifier::rlimit(40)]
pub proof fn law_creation_with_code<R: Runtime>(
    rules: RulesView,
    before: EvmView,
    caller: H160,
    scheme: CreateScheme,
    value: U256,
    init_code: Seq<u8>,
    gas_limit: u64,
    reason: ExitReason,
    address: Option<H160>,
    gas: Gas,
    output: Seq<u8>,
    after: EvmView,
)
    requires
        create_outcome::<R>(
            rules,
            before,
            caller,
            scheme,
            value,
            init_code,
            gas_limit,
            reason,
            address,
            gas,
            output,
            after,
        ),
        create_goes_ahead(
            rules,
            before,
            caller,
            value,
            place_of(before, caller, scheme, init_code),
        ),
    ensures
        exists|
            machine: MachineView,
            evm: EvmView,
            ran: ExitReason,
            machine_after: MachineView,
            host_after: EvmView,
        |
            {
                let place = place_of(before, caller, scheme, init_code);
                let code = machine_after.output;
                let too_long = rules.contract_limit matches Some(limit) && code.len() > limit;
                let used = machine_after.gas.used + 200 * code.len();
                &&& #[trigger] R::runs(rules, machine, evm, ran, machine_after, host_after)
                &&& inside_creation(rules, before, caller, value, place, evm)
                &&& machine.contract.code == init_code
                &&& machine.contract.input.len() == 0
                &&& machine.contract.address == place
                &&& machine.contract.caller == caller
                &&& machine.contract.value == value
                &&& machine.gas == (Gas { limit: gas_limit, used: 0, refunded: 0 })
                &&& machine.stack.len() == 0
                &&& machine.memory.len() == 0
                &&& machine.output.len() == 0
                &&& machine_after.gas.limit == gas_limit
                &&& machine_after.gas.used <= gas_limit
                &&& after.trace == host_after.trace
                &&& if ran is Succeed && !too_long && used <= gas_limit {
                    &&& reason == ExitReason::Succeed(ExitSucceed::Returned)
                    &&& address == Some(place)
                    &&& gas.limit == gas_limit
                    &&& gas.used == used
                    &&& gas.refunded == machine_after.gas.refunded
                    &&& output.len() == 0
                    &&& same_words(host_after, after)
                    &&& after.sub.logs == host_after.sub.logs
                    &&& warms(host_after, after, Set::empty())
                    &&& forall|x: H160| #[trigger]
                        standing(after, x) == if x == place {
                            Standing {
                                code,
                                code_hash: hash_of(init_code),
                                ..standing(host_after, x)
                            }
                        } else {
                            standing(host_after, x)
                        }
                } else {
                    &&& reason == if !(ran is Succeed) {
                        ran
                    } else if too_long {
                        ExitReason::Error(ExitError::CreateContractLimit)
                    } else {
                        ExitReason::Error(ExitError::OutOfGas)
                    }
                    &&& address is None
                    &&& gas == machine_after.gas
                    &&& output == if ran is Succeed {
                        Seq::<u8>::empty()
                    } else {
                        machine_after.output
                    }
                    &&& only_nonce(before, after, caller, true)
                }
            },
        same_setting(before, after),
        after.sub.marks == before.sub.marks,
{
    let index = before.sub.marks.len() as int;
    let place = place_of(before, caller, scheme, init_code);
    lemma_create_prepared(rules, before, caller, scheme, value, init_code, gas_limit);
    lemma_create_gate(rules, before, caller, scheme, value, init_code, gas_limit);
    lemma_create_outcome::<R>(
        rules,
        before,
        caller,
        scheme,
        value,
        init_code,
        gas_limit,
        reason,
        address,
        gas,
        output,
        after,
    );
    law_create_returns_to_its_depth::<R>(
        rules,
        before,
        caller,
        scheme,
        value,
        init_code,
        gas_limit,
        reason,
        address,
        gas,
        output,
        after,
    );
    let gate = before.create_gate(rules, caller, scheme, value, init_code, gas_limit);
    let machine = gate->Run_machine;
    let evm = gate->Run_evm;
    let (ran, machine_after, host_after) = choose|
        ran: ExitReason,
        machine_after: MachineView,
        host_after: EvmView,
    | #[trigger]
        create_ran::<R>(
            rules,
            index,
            machine,
            evm,
            place,
            reason,
            address,
            gas,
            output,
            after,
            ran,
            machine_after,
            host_after,
        );
    lemma_inside_ended(before, create_mark(before, caller), evm, host_after, index);
    assert(host_after.sub.accounts.contains_key(place));
    law_set_code(host_after, place, hash_of(init_code), machine_after.output);
    let coded = host_after.with_sub(
        host_after.sub.set_code(place, hash_of(init_code), machine_after.output),
    );
    let loaded = before.load(caller);
    let raised = loaded.with_sub(loaded.sub.inc_nonce(caller));
    law_load(before, caller);
    law_inc_nonce(loaded, caller);
    assert(R::runs(rules, machine, evm, ran, machine_after, host_after));
    if reason is Succeed {
        assert(after.sub.accounts == coded.sub.accounts);
        assert forall|x: H160| #[trigger] standing(after, x) == standing(coded, x) by {}
        assert forall|x: H160, i: H256| #[trigger]
            word(host_after, x, i) == word(after, x, i) by {
            assert(word(host_after, x, i) == word(coded, x, i));
        }
        assert forall|x: H160, i: H256| #[trigger]
            first_word(host_after, x, i) == first_word(after, x, i) by {
            assert(first_word(host_after, x, i) == first_word(coded, x, i));
        }
        assert forall|x: H160, i: H256| #[trigger]
            slot_is_warm(after, x, i) == slot_is_warm(host_after, x, i) by {
            assert(slot_is_warm(after, x, i) == slot_is_warm(coded, x, i));
        }
    } else {
        assert(after.sub.accounts == raised.sub.accounts);
        assert forall|x: H160| #[trigger]
            standing(after, x) == with_raised_nonce(before, caller, x) by {
            assert(standing(after, x) == standing(raised, x));
            assert(standing(before, x) == standing(loaded, x));
        }
        assert forall|x: H160, i: H256| #[trigger] word(before, x, i) == word(after, x, i) by {
            assert(word(before, x, i) == word(loaded, x, i));
            assert(word(loaded, x, i) == word(raised, x, i));
        }
        assert forall|x: H160, i: H256| #[trigger]
            first_word(before, x, i) == first_word(after, x, i) by {
            assert(first_word(before, x, i) == first_word(loaded, x, i));
            assert(first_word(loaded, x, i) == first_word(raised, x, i));
        }
        assert forall|x: H160, i: H256| #[trigger]
            slot_is_warm(after, x, i) == slot_is_warm(before, x, i) by {
            assert(slot_is_warm(after, x, i) == slot_is_warm(raised, x, i));
            assert(slot_is_warm(loaded, x, i) == slot_is_warm(before, x, i));
        }
        assert(only_nonce(before, after, caller, true));
    }
}

/// When init code that ran inside a checkpoint ends, its output becomes the code of the
/// contract exactly if it succeeded, the output is not too long, and 200 gas for each byte
/// of it are left, which are then used. Otherwise everything is as the checkpoint has it.
/// The checkpoint and all inside it are closed either way.
pub proof fn law_create_ended(
    evm: EvmView,
    index: int,
    place: H160,
    code_hash: H256,
    limit: Option<usize>,
    ran: ExitReason,
    machine: MachineView,
)
    requires
        evm.sub.accounts.contains_key(place),
    ensures
        ({
            let (reason, address, gas, output, after) = evm.create_ended(
                index,
                place,
                code_hash,
                limit,
                ran,
                machine,
            );
            let code = machine.output;
            let too_long = limit matches Some(most) && code.len() > most;
            let used = machine.gas.used + 200 * code.len();
            &&& after.sub.marks == evm.sub.marks.take(index)
            &&& same_setting(evm, after)
            &&& after.trace == evm.trace
            &&& gas.limit == machine.gas.limit
            &&& gas.refunded == machine.gas.refunded
            &&& if ran is Succeed && !too_long && used <= machine.gas.limit {
                &&& reason == ExitReason::Succeed(ExitSucceed::Returned)
                &&& address == Some(place)
                &&& gas.used == used
                &&& output.len() == 0
                &&& same_words(evm, after)
                &&& after.sub.logs == evm.sub.logs
                &&& warms(evm, after, Set::empty())
                &&& forall|x: H160| #[trigger]
                    standing(after, x) == if x == place {
                        Standing { code, code_hash, ..standing(evm, x) }
                    } else {
                        standing(evm, x)
                    }
            } else {
                &&& reason == if !(ran is Succeed) {
                    ran
                } else if too_long {
                    ExitReason::Error(ExitError::CreateContractLimit)
                } else {
                    ExitReason::Error(ExitError::OutOfGas)
                }
                &&& address is None
                &&& gas.used == machine.gas.used
                &&& output == if ran is Succeed {
                    Seq::<u8>::empty()
                } else {
                    machine.output
                }
                &&& after.sub.accounts == evm.sub.marks[index].accounts
                &&& after.sub.logs == evm.sub.marks[index].logs
            }
        }),
{
    law_set_code(evm, place, code_hash, machine.output);
}

} // verus!
