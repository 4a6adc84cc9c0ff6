//! Accounts as a transaction sees them, and the record of how they changed.
use crate::db::{code_octets, AccountInfo, InfoView};
use crate::primitives::{H160, H256, U256};
use crate::table::Table;
use bytes::Bytes;
use vstd::prelude::*;

verus! {

/// A storage word: its value before the transaction and its value now.
#[derive(Clone, Copy, Debug, PartialEq, Eq)]
pub struct Slot {
    pub original: H256,
    pub present: H256,
}

/// An account that the transaction has loaded.
pub struct Account {
    pub info: AccountInfo,
    /// The storage words that the transaction has read or written.
    pub storage: Table<H256, Slot>,
    /// Whether the transaction created the account, so that its storage starts
    /// out empty.
    pub created: bool,
    /// Whether the account is to be deleted when the transaction ends.
    pub destroyed: bool,
}

/// What an `Account` holds.
pub struct AccountView {
    pub info: InfoView,
    pub storage: Map<H256, Slot>,
    pub created: bool,
    pub destroyed: bool,
}

impl View for Account {
    type V = AccountView;

    open spec fn view(&self) -> AccountView {
        AccountView {
            info: self.info@,
            storage: self.storage@,
            created: self.created,
            destroyed: self.destroyed,
        }
    }
}

/// The accounts that a transaction has loaded, by address.
pub type State = Table<H160, Account>;

/// The accounts in a `State`.
pub open spec fn accounts_of(state: State) -> Map<H160, AccountView> {
    state@.map_values(|account: Account| account@)
}

/// A `State` whose tables are sound.
pub open spec fn state_wf(state: State) -> bool {
    &&& state.wf()
    &&& forall|address: H160| #[trigger]
        state@.contains_key(address) ==> state@[address].storage.wf()
}

impl AccountView {
    /// An account as the database has it.
    pub open spec fn loaded(info: InfoView) -> Self {
        AccountView { info, storage: Map::empty(), created: false, destroyed: false }
    }

    pub open spec fn with_balance(self, balance: nat) -> Self {
        AccountView { info: InfoView { balance, ..self.info }, ..self }
    }

    pub open spec fn with_nonce(self, nonce: u64) -> Self {
        AccountView { info: InfoView { nonce, ..self.info }, ..self }
    }

    pub open spec fn with_code(self, code_hash: H256, code: Option<Seq<u8>>) -> Self {
        AccountView { info: InfoView { code_hash, code, ..self.info }, ..self }
    }

    pub open spec fn with_slot(self, index: H256, slot: Slot) -> Self {
        AccountView { storage: self.storage.insert(index, slot), ..self }
    }

    /// Whether the account holds value, has sent anything, or has code.
    pub open spec fn is_live(self) -> bool {
        self.info.balance != 0 || self.info.nonce != 0 || self.has_code()
    }

    /// Whether the account has code. The code must have been fetched.
    pub open spec fn has_code(self) -> bool {
        self.info.code->0.len() != 0
    }
}

/// One change to one account, with what is needed to take it back.
pub enum Change {
    /// The account was loaded.
    Loaded { address: H160 },
    /// The balance was `balance`.
    Balance { address: H160, balance: U256 },
    /// The nonce was `nonce`.
    Nonce { address: H160, nonce: u64 },
    /// The code hash and the code were these.
    Code { address: H160, code_hash: H256, code: Option<Bytes> },
    /// The storage word was read for the first time.
    SlotLoaded { address: H160, index: H256 },
    /// The storage word was `present`.
    SlotWritten { address: H160, index: H256, present: H256 },
    /// The account was created; its storage and its mark were these.
    Created { address: H160, storage: Table<H256, Slot>, created: bool },
    /// The account was destroyed; its mark was this.
    Destroyed { address: H160, destroyed: bool },
}

/// What a `Change` holds.
pub enum ChangeView {
    Loaded,
    Balance { balance: nat },
    Nonce { nonce: u64 },
    Code { code_hash: H256, code: Option<Seq<u8>> },
    SlotLoaded { index: H256 },
    SlotWritten { index: H256, present: H256 },
    Created { storage: Map<H256, Slot>, created: bool },
    Destroyed { destroyed: bool },
}

impl View for Change {
    type V = (H160, ChangeView);

    open spec fn view(&self) -> (H160, ChangeView) {
        match *self {
            Change::Loaded { address } => (address, ChangeView::Loaded),
            Change::Balance { address, balance } => (
                address,
                ChangeView::Balance { balance: balance@ },
            ),
            Change::Nonce { address, nonce } => (address, ChangeView::Nonce { nonce }),
            Change::Code { address, code_hash, code } => (
                address,
                ChangeView::Code { code_hash, code: code_octets(code) },
            ),
            Change::SlotLoaded { address, index } => (address, ChangeView::SlotLoaded { index }),
            Change::SlotWritten { address, index, present } => (
                address,
                ChangeView::SlotWritten { index, present },
            ),
            Change::Created { address, storage, created } => (
                address,
                ChangeView::Created { storage: storage@, created },
            ),
            Change::Destroyed { address, destroyed } => (
                address,
                ChangeView::Destroyed { destroyed },
            ),
        }
    }
}

impl Change {
    /// The tables in the record are sound.
    pub open spec fn wf(self) -> bool {
        match self {
            Change::Created { address, storage, created } => storage.wf(),
            _ => true,
        }
    }
}

/// An account with a change taken back.
pub open spec fn undo_account(account: AccountView, change: ChangeView) -> AccountView {
    match change {
        ChangeView::Loaded => account,
        ChangeView::Balance { balance } => account.with_balance(balance),
        ChangeView::Nonce { nonce } => account.with_nonce(nonce),
        ChangeView::Code { code_hash, code } => account.with_code(code_hash, code),
        ChangeView::SlotLoaded { index } => AccountView {
            storage: account.storage.remove(index),
            ..account
        },
        ChangeView::SlotWritten { index, present } => account.with_slot(
            index,
            Slot { original: account.storage[index].original, present },
        ),
        ChangeView::Created { storage, created } => AccountView { storage, created, ..account },
        ChangeView::Destroyed { destroyed } => AccountView { destroyed, ..account },
    }
}

/// Whether a change can be taken back: what it is about is there.
pub open spec fn undoable(
    accounts: Map<H160, AccountView>,
    change: (H160, ChangeView),
) -> bool {
    &&& accounts.contains_key(change.0)
    &&& change.1 matches ChangeView::SlotWritten { index, present }
        ==> accounts[change.0].storage.contains_key(index)
}

/// The accounts with a change taken back.
pub open spec fn undo(
    accounts: Map<H160, AccountView>,
    change: (H160, ChangeView),
) -> Map<H160, AccountView> {
    if change.1 is Loaded {
        accounts.remove(change.0)
    } else {
        accounts.insert(change.0, undo_account(accounts[change.0], change.1))
    }
}

/// The accounts with all changes but the first `keep` taken back, the last
/// change first.
pub open spec fn unwound(
    accounts: Map<H160, AccountView>,
    changes: Seq<(H160, ChangeView)>,
    keep: nat,
) -> Map<H160, AccountView>
    decreases changes.len(),
{
    if changes.len() <= keep {
        accounts
    } else {
        unwound(undo(accounts, changes.last()), changes.drop_last(), keep)
    }
}

/// Whether all changes can be taken back, the last one first.
pub open spec fn all_undoable(
    accounts: Map<H160, AccountView>,
    changes: Seq<(H160, ChangeView)>,
) -> bool
    decreases changes.len(),
{
    changes.len() > 0 ==> {
        &&& undoable(accounts, changes.last())
        &&& all_undoable(undo(accounts, changes.last()), changes.drop_last())
    }
}

/// A change that takes `before` to `after` leaves what earlier marks unwind to
/// as it was.
pub proof fn lemma_recorded(
    before: Map<H160, AccountView>,
    after: Map<H160, AccountView>,
    changes: Seq<(H160, ChangeView)>,
    change: (H160, ChangeView),
)
    requires
        undo(after, change) == before,
        undoable(after, change),
        all_undoable(before, changes),
    ensures
        all_undoable(after, changes.push(change)),
        forall|keep: nat|
            keep <= changes.len() ==> #[trigger] unwound(after, changes.push(change), keep)
                == unwound(before, changes, keep),
{
    assert(changes.push(change).drop_last() =~= changes);
}

/// Adding or replacing an account in a `State` does the same to its accounts.
pub proof fn lemma_accounts_insert(before: State, after: State, address: H160, account: Account)
    requires
        after@ == before@.insert(address, account),
    ensures
        accounts_of(after) == accounts_of(before).insert(address, account@),
{
    assert(accounts_of(after) =~= accounts_of(before).insert(address, account@));
}

/// Takes a change back.
pub fn undo_change(state: &mut State, change: Change)
    requires
        state_wf(*old(state)),
        change.wf(),
        undoable(accounts_of(*old(state)), change@),
    ensures
        state_wf(*final(state)),
        accounts_of(*final(state)) == undo(accounts_of(*old(state)), change@),
{
    let ghost before = *state;
    match change {
        Change::Loaded { address } => {
            state.remove(&address);
            assert(accounts_of(*state) =~= accounts_of(before).remove(address));
        },
        Change::Balance { address, balance } => {
            let account = state.at_mut(&address);
            account.info.balance = balance;
            proof {
                lemma_accounts_insert(before, *state, address, state@[address]);
            }
        },
        Change::Nonce { address, nonce } => {
            let account = state.at_mut(&address);
            account.info.nonce = nonce;
            proof {
                lemma_accounts_insert(before, *state, address, state@[address]);
            }
        },
        Change::Code { address, code_hash, code } => {
            let account = state.at_mut(&address);
            account.info.code_hash = code_hash;
            account.info.code = code;
            proof {
                lemma_accounts_insert(before, *state, address, state@[address]);
            }
        },
        Change::SlotLoaded { address, index } => {
            let account = state.at_mut(&address);
            account.storage.remove(&index);
            proof {
                lemma_accounts_insert(before, *state, address, state@[address]);
            }
        },
        Change::SlotWritten { address, index, present } => {
            let account = state.at_mut(&address);
            let slot = account.storage.at_mut(&index);
            slot.present = present;
            proof {
                lemma_accounts_insert(before, *state, address, state@[address]);
            }
        },
        Change::Created { address, storage, created } => {
            let account = state.at_mut(&address);
            account.storage = storage;
            account.created = created;
            proof {
                lemma_accounts_insert(before, *state, address, state@[address]);
            }
        },
        Change::Destroyed { address, destroyed } => {
            let account = state.at_mut(&address);
            account.destroyed = destroyed;
            proof {
                lemma_accounts_insert(before, *state, address, state@[address]);
            }
        },
    }
}

} // verus!
