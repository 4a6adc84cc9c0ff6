//! What each operation does, told by what can be observed before and after it:
//! balances, nonces, codes, storage words, logs, what has been loaded, open
//! checkpoints and reports.
use crate::env::LogView;
use crate::error::ExitError;
use crate::laws::{first_word, same_world, standing, word, Standing};
use crate::model::EvmView;
use crate::primitives::{u256_bound, zero_hash, H160, H256};
use crate::subroutine::{next_nonce, SubView};
use crate::trace::TraceView;
use vstd::prelude::*;

verus! {

/// Whether the storage word of `address` at `index` has been read.
pub open spec fn slot_is_warm(evm: EvmView, address: H160, index: H256) -> bool {
    &&& evm.sub.accounts.contains_key(address)
    &&& evm.sub.accounts[address].storage.contains_key(index)
}

/// Whether exactly the accounts at `addresses` have been loaded between `a` and `b`, if
/// they were not before, and no storage word.
pub open spec fn warms(a: EvmView, b: EvmView, addresses: Set<H160>) -> bool {
    &&& forall|x: H160| #[trigger]
        b.sub.accounts.contains_key(x) <==> a.sub.accounts.contains_key(x) || addresses.contains(
            x,
        )
    &&& forall|x: H160, i: H256| #[trigger]
        slot_is_warm(b, x, i) <==> slot_is_warm(a, x, i)
}

/// Whether the database, the environment and the built-in contracts are the same.
pub open spec fn same_setting(a: EvmView, b: EvmView) -> bool {
    &&& a.db == b.db
    &&& a.env == b.env
    &&& a.precompiles == b.precompiles
}

/// Whether the setting, the open checkpoints and the reports are the same.
pub open spec fn same_frame(a: EvmView, b: EvmView) -> bool {
    &&& same_setting(a, b)
    &&& a.sub.marks == b.sub.marks
    &&& a.trace == b.trace
}

/// Whether no storage word differs, neither its value now nor its value before the
/// transaction.
pub open spec fn same_words(a: EvmView, b: EvmView) -> bool {
    &&& forall|x: H160, i: H256| #[trigger] word(a, x, i) == word(b, x, i)
    &&& forall|x: H160, i: H256| #[trigger] first_word(a, x, i) == first_word(b, x, i)
}

/// Whether there is anything at an address.
pub open spec fn lives(account: Standing) -> bool {
    account.balance != 0 || account.nonce != 0 || account.code.len() != 0
}

/// Loading an account loads that account and nothing else.
pub proof fn law_load(evm: EvmView, address: H160)
    ensures
        same_world(evm, evm.load(address)),
        same_frame(evm, evm.load(address)),
        warms(evm, evm.load(address), set![address]),
{
}

/// Loading an account with its code loads that account and nothing else, and the code is
/// there afterwards.
pub proof fn law_load_code(evm: EvmView, address: H160)
    ensures
        same_world(evm, evm.load_code(address)),
        same_frame(evm, evm.load_code(address)),
        warms(evm, evm.load_code(address), set![address]),
        evm.load_code(address).sub.accounts[address].info.code == Some(
            standing(evm, address).code,
        ),
{
}

/// Reading a storage word loads its account and the word and nothing else, and gives the
/// word as it is now and as it was before the transaction.
pub proof fn law_load_slot(evm: EvmView, address: H160, index: H256)
    ensures
        ({
            let after = evm.load_slot(address, index);
            &&& same_world(evm, after)
            &&& same_frame(evm, after)
            &&& forall|x: H160| #[trigger]
                after.sub.accounts.contains_key(x) <==> evm.sub.accounts.contains_key(x) || x
                    == address
            &&& forall|x: H160, i: H256| #[trigger]
                slot_is_warm(after, x, i) <==> slot_is_warm(evm, x, i) || (x == address && i
                    == index)
            &&& evm.sub.has_slot(address, index) <==> slot_is_warm(evm, address, index)
            &&& after.sub.accounts[address].storage[index].present == word(evm, address, index)
            &&& after.sub.accounts[address].storage[index].original == first_word(
                evm,
                address,
                index,
            )
        }),
{
}

/// Writing a storage word changes that word and nothing else; its value before the
/// transaction stays.
pub proof fn law_store_slot(evm: EvmView, address: H160, index: H256, value: H256)
    ensures
        ({
            let after = evm.store_slot(address, index, value);
            &&& same_frame(evm, after)
            &&& after.sub.logs == evm.sub.logs
            &&& forall|x: H160| #[trigger] standing(after, x) == standing(evm, x)
            &&& forall|x: H160, i: H256| #[trigger]
                word(after, x, i) == if x == address && i == index {
                    value
                } else {
                    word(evm, x, i)
                }
            &&& forall|x: H160, i: H256| #[trigger]
                first_word(after, x, i) == first_word(evm, x, i)
            &&& forall|x: H160| #[trigger]
                after.sub.accounts.contains_key(x) <==> evm.sub.accounts.contains_key(x) || x
                    == address
            &&& forall|x: H160, i: H256| #[trigger]
                slot_is_warm(after, x, i) <==> slot_is_warm(evm, x, i) || (x == address && i
                    == index)
        }),
{
}

/// Logging adds the logs at the end and does nothing else.
pub proof fn law_logged(evm: EvmView, logs: Seq<LogView>, log: LogView)
    ensures
        evm.logged(logs).sub.logs == evm.sub.logs + logs,
        evm.logged(logs).sub.accounts == evm.sub.accounts,
        same_frame(evm, evm.logged(logs)),
        evm.with_sub(evm.sub.logged(log)) == evm.logged(seq![log]),
{
    assert(evm.sub.logs.push(log) =~= evm.sub.logs + seq![log]);
}

/// A report is added at the end, and nothing else happens.
pub proof fn law_traced(evm: EvmView, event: TraceView)
    ensures
        evm.traced(event).trace == evm.trace.push(event),
        evm.traced(event).sub == evm.sub,
        same_setting(evm, evm.traced(event)),
{
}

/// A nonce goes up by one, and starts again from zero behind the largest.
pub proof fn law_next_nonce(nonce: u64)
    ensures
        nonce < u64::MAX ==> next_nonce(nonce) == nonce + 1,
        nonce == u64::MAX ==> next_nonce(nonce) == 0,
{
}

/// Raising the nonce of a loaded account changes that nonce and nothing else.
pub proof fn law_inc_nonce(evm: EvmView, address: H160)
    requires
        evm.sub.accounts.contains_key(address),
    ensures
        ({
            let after = evm.with_sub(evm.sub.inc_nonce(address));
            &&& same_frame(evm, after)
            &&& same_words(evm, after)
            &&& after.sub.logs == evm.sub.logs
            &&& warms(evm, after, Set::empty())
            &&& forall|x: H160| #[trigger]
                standing(after, x) == if x == address {
                    Standing { nonce: next_nonce(standing(evm, x).nonce), ..standing(evm, x) }
                } else {
                    standing(evm, x)
                }
        }),
{
}

/// Setting the code of a loaded account changes its code and its code hash and nothing
/// else.
pub proof fn law_set_code(evm: EvmView, address: H160, code_hash: H256, code: Seq<u8>)
    requires
        evm.sub.accounts.contains_key(address),
    ensures
        ({
            let after = evm.with_sub(evm.sub.set_code(address, code_hash, code));
            &&& same_frame(evm, after)
            &&& same_words(evm, after)
            &&& after.sub.logs == evm.sub.logs
            &&& warms(evm, after, Set::empty())
            &&& forall|x: H160| #[trigger]
                standing(after, x) == if x == address {
                    Standing { code_hash, code, ..standing(evm, x) }
                } else {
                    standing(evm, x)
                }
        }),
{
}

/// An account after `value` has gone from `source` to `target`.
pub open spec fn after_payment(
    account: Standing,
    address: H160,
    source: H160,
    target: H160,
    value: nat,
) -> Standing {
    if source == target {
        account
    } else if address == source {
        Standing { balance: (account.balance - value) as nat, ..account }
    } else if address == target {
        Standing { balance: account.balance + value, ..account }
    } else {
        account
    }
}

/// A transfer succeeds exactly if the source has the value and the target can hold it, or
/// is the source. It then moves the value; it fails for want of funds rather than of
/// room; and apart from that it only loads the two accounts.
pub proof fn law_transfer(evm: EvmView, source: H160, target: H160, value: nat)
    ensures
        ({
            let (sub, outcome) = evm.sub.transfer(evm.db, source, target, value);
            let after = evm.with_sub(sub);
            let short = standing(evm, source).balance < value;
            let full = source != target && standing(evm, target).balance + value
                >= u256_bound();
            &&& outcome == (if short {
                Err(ExitError::OutOfFund)
            } else if full {
                Err(ExitError::OverflowPayment)
            } else {
                Ok(())
            })
            &&& same_frame(evm, after)
            &&& same_words(evm, after)
            &&& after.sub.logs == evm.sub.logs
            &&& warms(evm, after, set![source, target])
            &&& forall|x: H160| #[trigger]
                standing(after, x) == if short || full {
                    standing(evm, x)
                } else {
                    after_payment(standing(evm, x), x, source, target, value)
                }
        }),
{
}

/// A contract can be started at an address exactly if there is no nonce, no code and no
/// built-in contract. It starts with an empty storage, and is otherwise as the account
/// was; nothing else changes.
pub proof fn law_new_contract(evm: EvmView, address: H160, built_in: Seq<H160>)
    ensures
        ({
            let (sub, free) = evm.sub.new_contract(evm.db, address, built_in);
            let after = evm.with_sub(sub);
            let there = standing(evm, address);
            &&& free <==> there.nonce == 0 && there.code.len() == 0 && !built_in.contains(address)
            &&& same_frame(evm, after)
            &&& after.sub.logs == evm.sub.logs
            &&& after.sub.accounts.contains_key(address)
            &&& after.sub.accounts[address].info.code is Some
            &&& !free ==> same_world(evm, after) && warms(evm, after, set![address])
            &&& free ==> {
                &&& forall|x: H160| #[trigger]
                    after.sub.accounts.contains_key(x) <==> evm.sub.accounts.contains_key(x) || x
                        == address
                &&& forall|x: H160| #[trigger]
                    standing(after, x) == if x == address {
                        Standing { created: true, ..standing(evm, x) }
                    } else {
                        standing(evm, x)
                    }
                &&& forall|x: H160, i: H256| #[trigger]
                    word(after, x, i) == if x == address {
                        zero_hash()
                    } else {
                        word(evm, x, i)
                    }
                &&& forall|x: H160, i: H256| #[trigger]
                    first_word(after, x, i) == if x == address {
                        zero_hash()
                    } else {
                        first_word(evm, x, i)
                    }
                &&& forall|x: H160, i: H256| #[trigger]
                    slot_is_warm(after, x, i) <==> slot_is_warm(evm, x, i) && x != address
            }
        }),
{
}

/// Destroying an account marks it for deletion and takes its balance; the target gets
/// that balance, as far as it can hold it, and is otherwise as it was; value that an
/// account hands to itself is lost. No other account, no storage word and no log changes,
/// and what is reported tells how the two accounts were before.
pub proof fn law_destroy(evm: EvmView, address: H160, target: H160)
    ensures
        ({
            let after = evm.destroy(address, target);
            let result = evm.sub.destroy_result(evm.db, address, target);
            let gone = standing(evm, address);
            let heir = standing(evm, target);
            &&& same_frame(evm, after)
            &&& same_words(evm, after)
            &&& after.sub.logs == evm.sub.logs
            &&& warms(evm, after, set![address, target])
            &&& standing(after, address) == (Standing { balance: 0, destroyed: true, ..gone })
            &&& target != address && heir.balance + gone.balance < u256_bound() ==> standing(
                after,
                target,
            ) == (Standing { balance: heir.balance + gone.balance, ..heir })
            &&& target != address && heir.balance + gone.balance >= u256_bound() ==> standing(
                after,
                target,
            ) == (Standing { balance: (u256_bound() - 1) as nat, ..heir })
            &&& forall|x: H160|
                x != address && x != target ==> #[trigger] standing(after, x) == standing(evm, x)
            &&& result.had_value <==> gone.balance != 0
            &&& result.exists <==> lives(heir)
            &&& result.is_cold <==> !evm.sub.accounts.contains_key(target) && target != address
            &&& result.previously_destroyed <==> gone.destroyed
        }),
{
}

/// Opening a checkpoint changes nothing but that there is one more.
pub proof fn law_marked(sub: SubView)
    ensures
        sub.marked().accounts == sub.accounts,
        sub.marked().logs == sub.logs,
        sub.marked().marks.len() == sub.marks.len() + 1,
        sub.marked().marks.take(sub.marks.len() as int) == sub.marks,
{
    assert(sub.marked().marks.take(sub.marks.len() as int) =~= sub.marks);
}

} // verus!
