//! What a transaction does, told by what can be observed before and after it.
use crate::account::AccountView;
use crate::behaviour::{
    after_payment, law_inc_nonce, law_load, law_load_slot, law_transfer, same_frame, same_setting,
    same_words, slot_is_warm, warms,
};
use crate::calls::none_at;
use crate::costs::law_charge;
use crate::creations::with_raised_nonce;
use crate::env::{CallContext, CreateScheme, Transfer};
use crate::error::{ExitError, ExitReason};
use crate::hardfork::RulesView;
use crate::laws::{first_word, same_world, standing, word, Standing};
use crate::machine::Gas;
use crate::model::{initial_gas, EvmView};
use crate::precompiles::{addresses_of, Precompile};
use crate::primitives::{u256_bound, H160, H256, U256};
use crate::runtime::{
    call_charged, call_outcome, call_settled, create_charged, create_outcome, create_settled,
    lemma_call_outcome, lemma_create_outcome, Runtime,
};
use crate::trace::TraceView;
use vstd::prelude::*;

verus! {

/// Whether an access list has an entry for `address`.
pub open spec fn lists_account(list: Seq<(H160, Vec<H256>)>, address: H160) -> bool {
    exists|k: int| 0 <= k < list.len() && (#[trigger] list[k]).0 == address
}

/// Whether an entry of an access list for `address` has `index`.
pub open spec fn lists_slot(list: Seq<(H160, Vec<H256>)>, address: H160, index: H256) -> bool {
    exists|k: int|
        0 <= k < list.len() && (#[trigger] list[k]).0 == address && list[k].1@.contains(index)
}

/// Whether `b` is `a` with some accounts and storage words loaded, and nothing else.
pub open spec fn only_loaded(a: EvmView, b: EvmView) -> bool {
    same_world(a, b) && same_frame(a, b)
}

/// Loading after loading is loading.
proof fn lemma_only_loaded(a: EvmView, b: EvmView, c: EvmView)
    requires
        only_loaded(a, b),
        only_loaded(b, c),
    ensures
        only_loaded(a, c),
{
    assert forall|x: H160| #[trigger] standing(a, x) == standing(c, x) by {
        assert(standing(a, x) == standing(b, x));
    }
    assert forall|x: H160, i: H256| #[trigger] word(a, x, i) == word(c, x, i) by {
        assert(word(a, x, i) == word(b, x, i));
    }
    assert forall|x: H160, i: H256| #[trigger] first_word(a, x, i) == first_word(c, x, i) by {
        assert(first_word(a, x, i) == first_word(b, x, i));
    }
}

/// Loading addresses one after the other loads exactly these.
pub proof fn law_load_all(evm: EvmView, addresses: Seq<H160>)
    ensures
        only_loaded(evm, evm.load_all(addresses)),
        warms(evm, evm.load_all(addresses), addresses.to_set()),
    decreases addresses.len(),
{
    let after = evm.load_all(addresses);
    if addresses.len() > 0 {
        let rest = evm.load_all(addresses.drop_last());
        law_load_all(evm, addresses.drop_last());
        law_load(rest, addresses.last());
        lemma_only_loaded(evm, rest, after);
        assert forall|x: H160| #[trigger] after.sub.accounts.contains_key(x) <==> (
        evm.sub.accounts.contains_key(x) || addresses.to_set().contains(x)) by {
            assert(rest.sub.accounts.contains_key(x) <==> evm.sub.accounts.contains_key(x)
                || addresses.drop_last().to_set().contains(x));
            assert(addresses.contains(x) <==> addresses.drop_last().contains(x) || x
                == addresses.last()) by {
                if addresses.contains(x) && x != addresses.last() {
                    let k = addresses.index_of(x);
                    assert(addresses.drop_last()[k] == x);
                }
                if addresses.drop_last().contains(x) {
                    let k = addresses.drop_last().index_of(x);
                    assert(addresses[k] == x);
                }
            }
        }
        assert forall|x: H160, i: H256| #[trigger]
            slot_is_warm(after, x, i) == slot_is_warm(evm, x, i) by {
            assert(slot_is_warm(rest, x, i) == slot_is_warm(evm, x, i));
        }
    }
}

/// Reading storage words one after the other loads their account, if there is any, and
/// exactly these words.
pub proof fn law_load_slots(evm: EvmView, address: H160, indices: Seq<H256>)
    ensures
        ({
            let after = evm.load_slots(address, indices);
            &&& only_loaded(evm, after)
            &&& forall|x: H160| #[trigger]
                after.sub.accounts.contains_key(x) <==> evm.sub.accounts.contains_key(x) || (x
                    == address && indices.len() > 0)
            &&& forall|x: H160, i: H256| #[trigger]
                slot_is_warm(after, x, i) <==> slot_is_warm(evm, x, i) || (x == address
                    && indices.contains(i))
        }),
    decreases indices.len(),
{
    let after = evm.load_slots(address, indices);
    if indices.len() > 0 {
        let rest = evm.load_slots(address, indices.drop_last());
        law_load_slots(evm, address, indices.drop_last());
        law_load_slot(rest, address, indices.last());
        lemma_only_loaded(evm, rest, after);
        assert forall|x: H160, i: H256| #[trigger]
            slot_is_warm(after, x, i) <==> slot_is_warm(evm, x, i) || (x == address
                && indices.contains(i)) by {
            assert(slot_is_warm(rest, x, i) <==> slot_is_warm(evm, x, i) || (x == address
                && indices.drop_last().contains(i)));
            assert(indices.contains(i) <==> indices.drop_last().contains(i) || i
                == indices.last()) by {
                if indices.contains(i) && i != indices.last() {
                    let k = indices.index_of(i);
                    assert(indices.drop_last()[k] == i);
                }
                if indices.drop_last().contains(i) {
                    let k = indices.drop_last().index_of(i);
                    assert(indices[k] == i);
                }
            }
        }
    }
}

/// Going through an access list loads exactly the accounts and the storage words that it
/// lists.
pub proof fn law_load_access_list(evm: EvmView, list: Seq<(H160, Vec<H256>)>)
    ensures
        ({
            let after = evm.load_access_list(list);
            &&& only_loaded(evm, after)
            &&& forall|x: H160| #[trigger]
                after.sub.accounts.contains_key(x) <==> evm.sub.accounts.contains_key(x)
                    || lists_account(list, x)
            &&& forall|x: H160, i: H256| #[trigger]
                slot_is_warm(after, x, i) <==> slot_is_warm(evm, x, i) || lists_slot(list, x, i)
        }),
    decreases list.len(),
{
    let after = evm.load_access_list(list);
    if list.len() > 0 {
        let less = list.drop_last();
        let rest = evm.load_access_list(less);
        let (address, indices) = list.last();
        let loaded = rest.load(address);
        law_load_access_list(evm, less);
        law_load(rest, address);
        law_load_slots(loaded, address, indices@);
        lemma_only_loaded(evm, rest, loaded);
        lemma_only_loaded(evm, loaded, after);
        assert forall|x: H160| #[trigger]
            after.sub.accounts.contains_key(x) <==> evm.sub.accounts.contains_key(x)
                || lists_account(list, x) by {
            assert(loaded.sub.accounts.contains_key(x) <==> rest.sub.accounts.contains_key(x) || x
                == address);
            assert(lists_account(list, x) <==> lists_account(less, x) || x == address) by {
                if lists_account(less, x) {
                    let k = choose|k: int| 0 <= k < less.len() && (#[trigger] less[k]).0 == x;
                    assert(list[k].0 == x);
                }
                if lists_account(list, x) && x != address {
                    let k = choose|k: int| 0 <= k < list.len() && (#[trigger] list[k]).0 == x;
                    assert(less[k].0 == x);
                }
                if x == address {
                    assert(list[list.len() - 1].0 == x);
                }
            }
        }
        assert forall|x: H160, i: H256| #[trigger]
            slot_is_warm(after, x, i) <==> slot_is_warm(evm, x, i) || lists_slot(list, x, i) by {
            assert(slot_is_warm(loaded, x, i) == slot_is_warm(rest, x, i));
            assert(slot_is_warm(rest, x, i) <==> slot_is_warm(evm, x, i) || lists_slot(less, x, i));
            assert(lists_slot(list, x, i) <==> lists_slot(less, x, i) || (x == address
                && indices@.contains(i))) by {
                if lists_slot(less, x, i) {
                    let k = choose|k: int|
                        0 <= k < less.len() && (#[trigger] less[k]).0 == x && less[k].1@.contains(
                            i,
                        );
                    assert(list[k].0 == x && list[k].1@.contains(i));
                }
                if lists_slot(list, x, i) && !(x == address && indices@.contains(i)) {
                    let k = choose|k: int|
                        0 <= k < list.len() && (#[trigger] list[k]).0 == x && list[k].1@.contains(
                            i,
                        );
                    assert(less[k].0 == x && less[k].1@.contains(i));
                }
                if x == address && indices@.contains(i) {
                    assert(list[list.len() - 1].0 == x);
                }
            }
        }
    }
}

/// Whether `after` is `before` made ready for a transaction: `precompiles` are the built-in
/// contracts, exactly their accounts and what the access list has have been loaded, and
/// nothing else has changed.
pub open spec fn made_ready(
    before: EvmView,
    after: EvmView,
    precompiles: Seq<Precompile>,
    list: Seq<(H160, Vec<H256>)>,
) -> bool {
    &&& same_world(before, after)
    &&& after.env == before.env
    &&& after.precompiles == precompiles
    &&& after.sub.marks == before.sub.marks
    &&& after.trace == before.trace
    &&& forall|x: H160| #[trigger]
        after.sub.accounts.contains_key(x) <==> before.sub.accounts.contains_key(x) || !none_at(
            precompiles,
            x,
        ) || lists_account(list, x)
    &&& forall|x: H160, i: H256| #[trigger]
        slot_is_warm(after, x, i) <==> slot_is_warm(before, x, i) || lists_slot(list, x, i)
}

/// Getting ready for a transaction takes note of the built-in contracts and loads exactly
/// their accounts and what the access list has.
pub proof fn law_initialized(
    before: EvmView,
    precompiles: Seq<Precompile>,
    list: Seq<(H160, Vec<H256>)>,
)
    ensures
        made_ready(before, before.initialized(precompiles, list), precompiles, list),
{
    let noted = EvmView { precompiles, ..before };
    let addresses = addresses_of(precompiles);
    let warmed = noted.load_all(addresses);
    let after = before.initialized(precompiles, list);
    law_load_all(noted, addresses);
    law_load_access_list(warmed, list);
    lemma_only_loaded(noted, warmed, after);
    assert forall|x: H160| #[trigger] standing(before, x) == standing(after, x) by {
        assert(standing(noted, x) == standing(after, x));
    }
    assert forall|x: H160, i: H256| #[trigger] word(before, x, i) == word(after, x, i) by {
        assert(word(noted, x, i) == word(after, x, i));
    }
    assert forall|x: H160, i: H256| #[trigger]
        first_word(before, x, i) == first_word(after, x, i) by {
        assert(first_word(noted, x, i) == first_word(after, x, i));
    }
    assert forall|x: H160| #[trigger]
        after.sub.accounts.contains_key(x) <==> before.sub.accounts.contains_key(x) || !none_at(
            precompiles,
            x,
        ) || lists_account(list, x) by {
        assert(warmed.sub.accounts.contains_key(x) <==> before.sub.accounts.contains_key(x)
            || addresses.to_set().contains(x));
        assert(addresses.contains(x) <==> !none_at(precompiles, x)) by {
            if addresses.contains(x) {
                let k = addresses.index_of(x);
                assert(precompiles[k].address == x);
            }
            if !none_at(precompiles, x) {
                let k = choose|k: int|
                    0 <= k < precompiles.len() && (#[trigger] precompiles[k]).address == x;
                assert(addresses[k] == x);
            }
        }
    }
    assert forall|x: H160, i: H256| #[trigger]
        slot_is_warm(after, x, i) <==> slot_is_warm(before, x, i) || lists_slot(list, x, i) by {
        assert(slot_is_warm(warmed, x, i) == slot_is_warm(noted, x, i));
        assert(slot_is_warm(noted, x, i) == slot_is_warm(before, x, i));
    }
}

/// The account at `x` once `sender` has paid `price` to `coinbase`, if it can pay that and
/// the coinbase can hold it.
pub open spec fn after_fee(
    evm: EvmView,
    x: H160,
    sender: H160,
    coinbase: H160,
    price: nat,
) -> Standing {
    if standing(evm, sender).balance >= price && (sender == coinbase || standing(
        evm,
        coinbase,
    ).balance + price < u256_bound()) {
        after_payment(standing(evm, x), x, sender, coinbase, price)
    } else {
        standing(evm, x)
    }
}

/// Whether a transaction that left `evm` and is charged for `charged` gas hands out
/// `accounts`: those that have been loaded, the sender and the coinbase, as they stand
/// after the price has been paid, each with the storage words that have been read.
pub open spec fn handed_out(
    evm: EvmView,
    sender: H160,
    charged: u64,
    accounts: Map<H160, AccountView>,
) -> bool {
    let coinbase = evm.env.block_coinbase;
    let price = charged as nat * evm.env.gas_price@;
    &&& forall|x: H160| #[trigger]
        accounts.contains_key(x) <==> evm.sub.accounts.contains_key(x) || x == sender || x
            == coinbase
    &&& forall|x: H160|
        accounts.contains_key(x) ==> {
            let account = #[trigger] accounts[x];
            let expected = after_fee(evm, x, sender, coinbase, price);
            &&& account.info.balance == expected.balance
            &&& account.info.nonce == expected.nonce
            &&& account.info.code_hash == expected.code_hash
            &&& account.info.code matches Some(code) ==> code == expected.code
            &&& account.created == expected.created
            &&& account.destroyed == expected.destroyed
        }
    &&& forall|x: H160, i: H256|
        accounts.contains_key(x) ==> {
            &&& #[trigger] accounts[x].storage.contains_key(i) <==> slot_is_warm(evm, x, i)
            &&& slot_is_warm(evm, x, i) ==> accounts[x].storage[i].present == word(evm, x, i)
                && accounts[x].storage[i].original == first_word(evm, x, i)
        }
}

/// Whether `after` is a machine between transactions, with the setting and the reports of
/// `evm`.
pub open spec fn left_empty(evm: EvmView, after: EvmView) -> bool {
    &&& same_setting(evm, after)
    &&& after.trace == evm.trace
    &&& after.sub.accounts == Map::<H160, AccountView>::empty()
    &&& after.sub.logs.len() == 0
    &&& after.sub.marks.len() == 0
}

/// Settling a transaction has the sender pay the coinbase for the gas, hands out the
/// accounts and leaves the machine empty.
pub proof fn law_settled(evm: EvmView, sender: H160, charged: u64)
    ensures
        handed_out(evm, sender, charged, evm.settled(sender, charged).1),
        left_empty(evm, evm.settled(sender, charged).0),
{
    let coinbase = evm.env.block_coinbase;
    let price = charged as nat * evm.env.gas_price@;
    let accounts = evm.settled(sender, charged).1;
    let (sub, outcome) = evm.sub.transfer(evm.db, sender, coinbase, price);
    let paid = evm.with_sub(sub);
    law_transfer(evm, sender, coinbase, price);
    assert forall|x: H160| accounts.contains_key(x) implies {
        let account = #[trigger] accounts[x];
        let expected = after_fee(evm, x, sender, coinbase, price);
        &&& account.info.balance == expected.balance
        &&& account.info.nonce == expected.nonce
        &&& account.info.code_hash == expected.code_hash
        &&& account.info.code matches Some(code) ==> code == expected.code
        &&& account.created == expected.created
        &&& account.destroyed == expected.destroyed
    } by {
        assert(standing(paid, x) == after_fee(evm, x, sender, coinbase, price));
    }
    assert forall|x: H160, i: H256| accounts.contains_key(x) implies {
        &&& #[trigger] accounts[x].storage.contains_key(i) <==> slot_is_warm(evm, x, i)
        &&& slot_is_warm(evm, x, i) ==> accounts[x].storage[i].present == word(evm, x, i)
            && accounts[x].storage[i].original == first_word(evm, x, i)
    } by {
        assert(slot_is_warm(paid, x, i) == slot_is_warm(evm, x, i));
        assert(word(evm, x, i) == word(paid, x, i));
        assert(first_word(evm, x, i) == first_word(paid, x, i));
    }
}

/// What a transaction has used, before its refund: all of its gas after an error, and
/// otherwise what it used before and while code ran.
pub open spec fn used_by(gas_limit: u64, initial: nat, reason: ExitReason, gas: Gas) -> int {
    if reason is Error {
        gas_limit as int
    } else {
        initial + gas.used
    }
}

/// Whether `sent` is `before` made ready for a transaction, with the account of `caller`
/// loaded and its nonce raised.
pub open spec fn made_sent(
    before: EvmView,
    sent: EvmView,
    precompiles: Seq<Precompile>,
    list: Seq<(H160, Vec<H256>)>,
    caller: H160,
) -> bool {
    &&& same_words(before, sent)
    &&& sent.sub.logs == before.sub.logs
    &&& sent.db == before.db
    &&& sent.env == before.env
    &&& sent.precompiles == precompiles
    &&& sent.sub.marks == before.sub.marks
    &&& sent.trace == before.trace
    &&& forall|x: H160| #[trigger] standing(sent, x) == with_raised_nonce(before, caller, x)
    &&& forall|x: H160| #[trigger]
        sent.sub.accounts.contains_key(x) <==> before.sub.accounts.contains_key(x) || !none_at(
            precompiles,
            x,
        ) || lists_account(list, x) || x == caller
    &&& forall|x: H160, i: H256| #[trigger]
        slot_is_warm(sent, x, i) <==> slot_is_warm(before, x, i) || lists_slot(list, x, i)
}

/// What a call made as a transaction, with enough gas to run, does by way of `sent`, `gas`
/// and `called`: with the nonce of the sender raised, the call is made from the sender to
/// the address, with the value, the data and the gas that is left. The transaction ends as
/// the call does, is charged for what it has used less its refund, and is settled.
pub open spec fn call_is_made<R: Runtime>(
    rules: RulesView,
    before: EvmView,
    caller: H160,
    address: H160,
    value: U256,
    data: Seq<u8>,
    gas_limit: u64,
    access_list: Seq<(H160, Vec<H256>)>,
    reason: ExitReason,
    output: Seq<u8>,
    charged: u64,
    accounts: Map<H160, AccountView>,
    after: EvmView,
    sent: EvmView,
    gas: Gas,
    called: EvmView,
) -> bool {
    let initial = initial_gas(rules, data, false, access_list);
    let spent = used_by(gas_limit, initial, reason, gas);
    &&& made_sent(before, sent, rules.precompiles, access_list, caller)
    &&& call_outcome::<R>(
        rules,
        sent,
        address,
        Some(Transfer { source: caller, target: address, value }),
        data,
        (gas_limit - initial) as u64,
        CallContext { caller, address, apparent_value: value },
        reason,
        gas,
        output,
        called,
    )
    &&& charged == if 0 <= gas.refunded <= spent / 2 {
        spent - gas.refunded
    } else {
        spent - spent / 2
    }
    &&& handed_out(called, caller, charged, accounts)
    &&& left_empty(called, after)
}

/// Getting ready and raising the nonce of the sender.
proof fn lemma_made_sent(
    before: EvmView,
    precompiles: Seq<Precompile>,
    list: Seq<(H160, Vec<H256>)>,
    caller: H160,
)
    ensures
        ({
            let loaded = before.initialized(precompiles, list).load(caller);
            made_sent(
                before,
                loaded.with_sub(loaded.sub.inc_nonce(caller)),
                precompiles,
                list,
                caller,
            )
        }),
{
    let ready = before.initialized(precompiles, list);
    let loaded = ready.load(caller);
    let sent = loaded.with_sub(loaded.sub.inc_nonce(caller));
    law_initialized(before, precompiles, list);
    law_load(ready, caller);
    law_inc_nonce(loaded, caller);
    assert forall|x: H160| #[trigger] standing(sent, x) == with_raised_nonce(before, caller, x) by {
        assert(standing(before, x) == standing(ready, x));
        assert(standing(ready, x) == standing(loaded, x));
    }
    assert forall|x: H160, i: H256| #[trigger] word(before, x, i) == word(sent, x, i) by {
        assert(word(before, x, i) == word(ready, x, i));
        assert(word(ready, x, i) == word(loaded, x, i));
        assert(word(loaded, x, i) == word(sent, x, i));
    }
    assert forall|x: H160, i: H256| #[trigger]
        first_word(before, x, i) == first_word(sent, x, i) by {
        assert(first_word(before, x, i) == first_word(ready, x, i));
        assert(first_word(ready, x, i) == first_word(loaded, x, i));
        assert(first_word(loaded, x, i) == first_word(sent, x, i));
    }
    assert forall|x: H160, i: H256| #[trigger]
        slot_is_warm(sent, x, i) <==> slot_is_warm(before, x, i) || lists_slot(list, x, i) by {
        assert(slot_is_warm(loaded, x, i) == slot_is_warm(ready, x, i));
    }
    assert forall|x: H160| #[trigger]
        sent.sub.accounts.contains_key(x) <==> before.sub.accounts.contains_key(x) || !none_at(
            precompiles,
            x,
        ) || lists_account(list, x) || x == caller by {
        assert(loaded.sub.accounts.contains_key(x) <==> ready.sub.accounts.contains_key(x) || x
            == caller);
    }
}

/// A call that is charged as a transaction has been made as one.
#[verifier::spinoff_prover]
#[verifier::rlimit(40)]
proof fn lemma_call_is_made<R: Runtime>(
    rules: RulesView,
    before: EvmView,
    caller: H160,
    address: H160,
    value: U256,
    data: Seq<u8>,
    gas_limit: u64,
    access_list: Seq<(H160, Vec<H256>)>,
    reason: ExitReason,
    output: Seq<u8>,
    charged: u64,
    accounts: Map<H160, AccountView>,
    after: EvmView,
    gas: Gas,
    called: EvmView,
)
    requires
        call_charged::<R>(
            rules,
            before,
            caller,
            address,
            value,
            data,
            gas_limit,
            access_list,
            reason,
            output,
            charged,
            accounts,
            after,
            gas,
            called,
        ),
        gas_limit >= initial_gas(rules, data, false, access_list),
    ensures
        ({
            let loaded = before.initialized(rules.precompiles, access_list).load(caller);
            let sent = loaded.with_sub(loaded.sub.inc_nonce(caller));
            call_is_made::<R>(
                rules,
                before,
                caller,
                address,
                value,
                data,
                gas_limit,
                access_list,
                reason,
                output,
                charged,
                accounts,
                after,
                sent,
                gas,
                called,
            )
        }),
{
    let initial = initial_gas(rules, data, false, access_list);
    let loaded = before.initialized(rules.precompiles, access_list).load(caller);
    let sent = loaded.with_sub(loaded.sub.inc_nonce(caller));
    let spent = used_by(gas_limit, initial, reason, gas);
    assert(made_sent(before, sent, rules.precompiles, access_list, caller)) by {
        lemma_made_sent(before, rules.precompiles, access_list, caller);
    }
    assert(gas.used <= gas_limit - initial) by {
        lemma_call_outcome::<R>(
            rules,
            sent,
            address,
            Some(Transfer { source: caller, target: address, value }),
            data,
            (gas_limit - initial) as u64,
            CallContext { caller, address, apparent_value: value },
            reason,
            gas,
            output,
            called,
        );
    }
    law_charge(spent, gas.refunded);
    assert(handed_out(called, caller, charged, accounts)) by {
        law_settled(called, caller, charged);
    }
    assert(left_empty(called, after)) by {
        law_settled(called, caller, charged);
    }
}

/// A call made as a transaction that has too little gas for what it uses before any code
/// runs is refused, is not charged and hands out nothing. Otherwise it is made.
#[verifier::spinoff_prover]
#[verifier::rlimit(40)]
pub proof fn law_call_transaction<R: Runtime>(
    rules: RulesView,
    before: EvmView,
    caller: H160,
    address: H160,
    value: U256,
    data: Seq<u8>,
    gas_limit: u64,
    access_list: Seq<(H160, Vec<H256>)>,
    reason: ExitReason,
    output: Seq<u8>,
    charged: u64,
    accounts: Map<H160, AccountView>,
    after: EvmView,
)
    requires
        call_settled::<R>(
            rules,
            before,
            caller,
            address,
            value,
            data,
            gas_limit,
            access_list,
            reason,
            output,
            charged,
            accounts,
            after,
        ),
    ensures
        gas_limit < initial_gas(rules, data, false, access_list) ==> {
            &&& reason == ExitReason::Error(ExitError::OutOfGas)
            &&& output.len() == 0
            &&& charged == 0
            &&& accounts == Map::<H160, AccountView>::empty()
            &&& made_ready(before, after, rules.precompiles, access_list)
        },
        gas_limit >= initial_gas(rules, data, false, access_list) ==> exists|
            sent: EvmView,
            gas: Gas,
            called: EvmView,
        | #[trigger]
            call_is_made::<R>(
                rules,
                before,
                caller,
                address,
                value,
                data,
                gas_limit,
                access_list,
                reason,
                output,
                charged,
                accounts,
                after,
                sent,
                gas,
                called,
            ),
{
    if gas_limit < initial_gas(rules, data, false, access_list) {
        law_initialized(before, rules.precompiles, access_list);
    } else {
        let (gas, called) = choose|gas: Gas, called: EvmView| #[trigger]
            call_charged::<R>(
                rules,
                before,
                caller,
                address,
                value,
                data,
                gas_limit,
                access_list,
                reason,
                output,
                charged,
                accounts,
                after,
                gas,
                called,
            );
        lemma_call_is_made::<R>(
            rules,
            before,
            caller,
            address,
            value,
            data,
            gas_limit,
            access_list,
            reason,
            output,
            charged,
            accounts,
            after,
            gas,
            called,
        );
    }
}

/// What a creation made as a transaction, with enough gas to run, does by way of `ready`,
/// `gas`, `output` and `created`: the creation is made by the sender, with the value, the
/// init code and the gas that is left. The transaction ends as the creation does, is
/// charged for what it has used less its refund, reports that, and is settled.
pub open spec fn creation_is_made<R: Runtime>(
    rules: RulesView,
    before: EvmView,
    caller: H160,
    value: U256,
    init_code: Seq<u8>,
    scheme: CreateScheme,
    gas_limit: u64,
    access_list: Seq<(H160, Vec<H256>)>,
    reason: ExitReason,
    address: Option<H160>,
    charged: u64,
    accounts: Map<H160, AccountView>,
    after: EvmView,
    ready: EvmView,
    gas: Gas,
    output: Seq<u8>,
    created: EvmView,
) -> bool {
    let initial = initial_gas(rules, init_code, true, access_list);
    let spent = used_by(gas_limit, initial, reason, gas);
    let reported = EvmView {
        trace: created.trace.push(
            TraceView::CreateGas { gas_spend: spent as u64, charged, gas },
        ),
        ..created
    };
    &&& made_ready(before, ready, rules.precompiles, access_list)
    &&& create_outcome::<R>(
        rules,
        ready,
        caller,
        scheme,
        value,
        init_code,
        (gas_limit - initial) as u64,
        reason,
        address,
        gas,
        output,
        created,
    )
    &&& charged == if 0 <= gas.refunded <= spent / 2 {
        spent - gas.refunded
    } else {
        spent - spent / 2
    }
    &&& handed_out(reported, caller, charged, accounts)
    &&& left_empty(reported, after)
}

/// A creation that is charged as a transaction has been made as one.
#[verifier::spinoff_prover]
#[verifier::rlimit(40)]
proof fn lemma_creation_is_made<R: Runtime>(
    rules: RulesView,
    before: EvmView,
    caller: H160,
    value: U256,
    init_code: Seq<u8>,
    scheme: CreateScheme,
    gas_limit: u64,
    access_list: Seq<(H160, Vec<H256>)>,
    reason: ExitReason,
    address: Option<H160>,
    charged: u64,
    accounts: Map<H160, AccountView>,
    after: EvmView,
    gas: Gas,
    output: Seq<u8>,
    created: EvmView,
)
    requires
        create_charged::<R>(
            rules,
            before,
            caller,
            value,
            init_code,
            scheme,
            gas_limit,
            access_list,
            reason,
            address,
            charged,
            accounts,
            after,
            gas,
            output,
            created,
        ),
        gas_limit >= initial_gas(rules, init_code, true, access_list),
    ensures
        ({
            let ready = before.initialized(rules.precompiles, access_list);
            creation_is_made::<R>(
                rules,
                before,
                caller,
                value,
                init_code,
                scheme,
                gas_limit,
                access_list,
                reason,
                address,
                charged,
                accounts,
                after,
                ready,
                gas,
                output,
                created,
            )
        }),
{
    let initial = initial_gas(rules, init_code, true, access_list);
    let ready = before.initialized(rules.precompiles, access_list);
    let spent = used_by(gas_limit, initial, reason, gas);
    let reported = created.traced(TraceView::CreateGas { gas_spend: spent as u64, charged, gas });
    assert(made_ready(before, ready, rules.precompiles, access_list)) by {
        law_initialized(before, rules.precompiles, access_list);
    }
    assert(gas.used <= gas_limit - initial) by {
        lemma_create_outcome::<R>(
            rules,
            ready,
            caller,
            scheme,
            value,
            init_code,
            (gas_limit - initial) as u64,
            reason,
            address,
            gas,
            output,
            created,
        );
    }
    law_charge(spent, gas.refunded);
    assert(handed_out(reported, caller, charged, accounts)) by {
        law_settled(reported, caller, charged);
    }
    assert(left_empty(reported, after)) by {
        law_settled(reported, caller, charged);
    }
}

/// A creation made as a transaction that has too little gas for what it uses before any
/// code runs is refused, is not charged and hands out nothing. Otherwise it is made.
#[verifier::spinoff_prover]
#[verifier::rlimit(40)]
pub proof fn law_create_transaction<R: Runtime>(
    rules: RulesView,
    before: EvmView,
    caller: H160,
    value: U256,
    init_code: Seq<u8>,
    scheme: CreateScheme,
    gas_limit: u64,
    access_list: Seq<(H160, Vec<H256>)>,
    reason: ExitReason,
    address: Option<H160>,
    charged: u64,
    accounts: Map<H160, AccountView>,
    after: EvmView,
)
    requires
        create_settled::<R>(
            rules,
            before,
            caller,
            value,
            init_code,
            scheme,
            gas_limit,
            access_list,
            reason,
            address,
            charged,
            accounts,
            after,
        ),
    ensures
        gas_limit < initial_gas(rules, init_code, true, access_list) ==> {
            &&& reason == ExitReason::Error(ExitError::OutOfGas)
            &&& address is None
            &&& charged == 0
            &&& accounts == Map::<H160, AccountView>::empty()
            &&& made_ready(before, after, rules.precompiles, access_list)
        },
        gas_limit >= initial_gas(rules, init_code, true, access_list) ==> exists|
            ready: EvmView,
            gas: Gas,
            output: Seq<u8>,
            created: EvmView,
        | #[trigger]
            creation_is_made::<R>(
                rules,
                before,
                caller,
                value,
                init_code,
                scheme,
                gas_limit,
                access_list,
                reason,
                address,
                charged,
                accounts,
                after,
                ready,
                gas,
                output,
                created,
            ),
{
    if gas_limit < initial_gas(rules, init_code, true, access_list) {
        law_initialized(before, rules.precompiles, access_list);
    } else {
        let (gas, output, created) = choose|gas: Gas, output: Seq<u8>, created: EvmView| #[trigger]
            create_charged::<R>(
                rules,
                before,
                caller,
                value,
                init_code,
                scheme,
                gas_limit,
                access_list,
                reason,
                address,
                charged,
                accounts,
                after,
                gas,
                output,
                created,
            );
        lemma_creation_is_made::<R>(
            rules,
            before,
            caller,
            value,
            init_code,
            scheme,
            gas_limit,
            access_list,
            reason,
            address,
            charged,
            accounts,
            after,
            gas,
            output,
            created,
        );
    }
}

} // verus!
