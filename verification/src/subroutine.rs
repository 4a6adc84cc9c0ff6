//! The accounts and logs of a running transaction, with checkpoints to go back
//! to.
use crate::account::{
    accounts_of, all_undoable, lemma_accounts_insert, lemma_recorded, state_wf, undo, undo_change,
    undoable, unwound, Account, AccountView, Change, ChangeView, Slot, State,
};
use crate::buffer::{buffer_is_empty, octets};
use crate::db::{Database, DbView};
use crate::env::{Log, LogView};
use crate::error::ExitError;
use crate::evm::SelfDestructResult;
use crate::primitives::{
    contains_address, lemma_u256_bound, u256_bound, zero_hash, Key, H160, H256, U256,
};
use crate::table::Table;
use bytes::Bytes;
use vstd::prelude::*;

verus! {

/// What a checkpoint remembers.
pub struct Mark {
    pub accounts: Map<H160, AccountView>,
    pub logs: Seq<LogView>,
}

/// What a `SubRoutine` holds: the accounts loaded so far, the logs, and the open
/// checkpoints, the outermost first.
pub struct SubView {
    pub accounts: Map<H160, AccountView>,
    pub logs: Seq<LogView>,
    pub marks: Seq<Mark>,
}

impl SubView {
    pub open spec fn empty() -> Self {
        SubView { accounts: Map::empty(), logs: Seq::empty(), marks: Seq::empty() }
    }

    /// With `account` at `address`.
    pub open spec fn with(self, address: H160, account: AccountView) -> Self {
        SubView { accounts: self.accounts.insert(address, account), ..self }
    }

    /// With the account at `address` loaded from the database.
    pub open spec fn load(self, db: DbView, address: H160) -> Self {
        if self.accounts.contains_key(address) {
            self
        } else {
            self.with(address, AccountView::loaded((db.accounts)(address)))
        }
    }

    /// With the account at `address` loaded and its code fetched.
    pub open spec fn load_code(self, db: DbView, address: H160) -> Self {
        let loaded = self.load(db, address);
        let account = loaded.accounts[address];
        if account.info.code is Some {
            loaded
        } else {
            loaded.with(
                address,
                account.with_code(
                    account.info.code_hash,
                    Some((db.codes)(account.info.code_hash)),
                ),
            )
        }
    }

    /// Whether the storage word of `address` at `index` has been read.
    pub open spec fn has_slot(self, address: H160, index: H256) -> bool {
        self.accounts.contains_key(address) && self.accounts[address].storage.contains_key(index)
    }

    /// With the storage word of `address` at `index` read. The storage of an
    /// account that the transaction created starts out as zeros.
    pub open spec fn load_slot(self, db: DbView, address: H160, index: H256) -> Self {
        let loaded = self.load(db, address);
        let account = loaded.accounts[address];
        if account.storage.contains_key(index) {
            loaded
        } else {
            let value = if account.created {
                zero_hash()
            } else {
                (db.storage)(address, index)
            };
            loaded.with(
                address,
                account.with_slot(index, Slot { original: value, present: value }),
            )
        }
    }

    /// With `value` written to the storage of `address` at `index`.
    pub open spec fn store_slot(self, db: DbView, address: H160, index: H256, value: H256) -> Self {
        let loaded = self.load_slot(db, address, index);
        let account = loaded.accounts[address];
        loaded.with(
            address,
            account.with_slot(
                index,
                Slot { original: account.storage[index].original, present: value },
            ),
        )
    }

    /// With one more log.
    pub open spec fn logged(self, log: LogView) -> Self {
        SubView { logs: self.logs.push(log), ..self }
    }

    /// With the nonce of `address` one higher.
    pub open spec fn inc_nonce(self, address: H160) -> Self {
        let account = self.accounts[address];
        self.with(address, account.with_nonce(next_nonce(account.info.nonce)))
    }

    /// With `value` moved, or the reason why it was not.
    pub open spec fn transfer(
        self,
        db: DbView,
        source: H160,
        target: H160,
        value: nat,
    ) -> (Self, Result<(), ExitError>) {
        let loaded = self.load(db, source).load(db, target);
        let from = loaded.accounts[source];
        let to = loaded.accounts[target];
        if from.info.balance < value {
            (loaded, Err(ExitError::OutOfFund))
        } else if source == target {
            (loaded, Ok(()))
        } else if to.info.balance + value >= u256_bound() {
            (loaded, Err(ExitError::OverflowPayment))
        } else {
            (
                loaded.with(
                    source,
                    from.with_balance((from.info.balance - value) as nat),
                ).with(target, to.with_balance(to.info.balance + value)),
                Ok(()),
            )
        }
    }

    /// With a contract started at `address`, unless the address is taken: by an
    /// account that has sent something or has code, or by one of `precompiles`.
    pub open spec fn new_contract(
        self,
        db: DbView,
        address: H160,
        precompiles: Seq<H160>,
    ) -> (Self, bool) {
        let loaded = self.load_code(db, address);
        let account = loaded.accounts[address];
        if account.info.nonce != 0 || account.has_code() || precompiles.contains(address) {
            (loaded, false)
        } else {
            (
                loaded.with(
                    address,
                    AccountView { storage: Map::empty(), created: true, ..account },
                ),
                true,
            )
        }
    }

    /// With the code of `address` set.
    pub open spec fn set_code(self, address: H160, code_hash: H256, code: Seq<u8>) -> Self {
        self.with(address, self.accounts[address].with_code(code_hash, Some(code)))
    }

    /// With `address` marked for deletion and its balance handed to `target`.
    /// Value that an account hands to itself is lost.
    pub open spec fn destroy(self, db: DbView, address: H160, target: H160) -> Self {
        let loaded = self.load(db, address).load_code(db, target);
        let paid = if address == target {
            loaded
        } else {
            let to = loaded.accounts[target];
            let sum = to.info.balance + loaded.accounts[address].info.balance;
            loaded.with(
                target,
                to.with_balance(
                    if sum < u256_bound() {
                        sum
                    } else {
                        (u256_bound() - 1) as nat
                    },
                ),
            )
        };
        paid.with(
            address,
            AccountView { destroyed: true, ..paid.accounts[address].with_balance(0) },
        )
    }

    /// What handing the balance of `address` to `target` comes upon.
    pub open spec fn destroy_result(
        self,
        db: DbView,
        address: H160,
        target: H160,
    ) -> SelfDestructResult {
        let before = self.load(db, address);
        let loaded = before.load_code(db, target);
        SelfDestructResult {
            had_value: loaded.accounts[address].info.balance != 0,
            exists: loaded.accounts[target].is_live(),
            is_cold: !before.accounts.contains_key(target),
            previously_destroyed: loaded.accounts[address].destroyed,
        }
    }

    /// With a new innermost checkpoint.
    pub open spec fn marked(self) -> Self {
        SubView {
            marks: self.marks.push(Mark { accounts: self.accounts, logs: self.logs }),
            ..self
        }
    }

    /// As it was at checkpoint `index`, with that checkpoint and all inside it
    /// closed.
    pub open spec fn rolled_back(self, index: int) -> Self {
        SubView {
            accounts: self.marks[index].accounts,
            logs: self.marks[index].logs,
            marks: self.marks.take(index),
        }
    }

    /// As it is, with checkpoint `index` and all inside it closed.
    pub open spec fn committed(self, index: int) -> Self {
        SubView { marks: self.marks.take(index), ..self }
    }
}

/// The nonce after `nonce`, which wraps around at the end of its range.
pub open spec fn next_nonce(nonce: u64) -> u64 {
    if nonce == u64::MAX {
        0
    } else {
        (nonce + 1) as u64
    }
}

/// Where the records of changes and logs stood when a checkpoint was made.
#[derive(Clone, Copy, Debug)]
struct Position {
    changes: usize,
    logs: usize,
}

/// A checkpoint of a `SubRoutine`.
#[derive(Clone, Copy, Debug)]
pub struct SubRoutineCheckpoint {
    pub index: usize,
}

/// The accounts and logs of a transaction. Every change to an account is
/// recorded, so that it can be taken back.
pub struct SubRoutine {
    state: State,
    logs: Vec<Log>,
    changes: Vec<Change>,
    positions: Vec<Position>,
    marks: Ghost<Seq<Mark>>,
}

impl View for SubRoutine {
    type V = SubView;

    closed spec fn view(&self) -> SubView {
        SubView {
            accounts: accounts_of(self.state),
            logs: self.logs@.map_values(|log: Log| log@),
            marks: self.marks@,
        }
    }
}

impl SubRoutine {
    spec fn change_views(self) -> Seq<(H160, ChangeView)> {
        self.changes@.map_values(|change: Change| change@)
    }

    /// The tables are sound, and taking back the changes made since a checkpoint
    /// leads to what the checkpoint remembers.
    pub closed spec fn wf(self) -> bool {
        &&& state_wf(self.state)
        &&& forall|i: int| 0 <= i < self.changes@.len() ==> (#[trigger] self.changes@[i]).wf()
        &&& all_undoable(accounts_of(self.state), self.change_views())
        &&& self.positions@.len() == self.marks@.len()
        &&& forall|i: int, j: int|
            0 <= i <= j < self.positions@.len() ==> (#[trigger] self.positions@[i]).changes <= (
            #[trigger] self.positions@[j]).changes && self.positions@[i].logs
                <= self.positions@[j].logs
        &&& forall|i: int|
            0 <= i < self.positions@.len() ==> {
                &&& (#[trigger] self.positions@[i]).changes <= self.changes@.len()
                &&& self.positions@[i].logs <= self.logs@.len()
                &&& unwound(
                    accounts_of(self.state),
                    self.change_views(),
                    self.positions@[i].changes as nat,
                ) == self.marks@[i].accounts
                &&& self@.logs.take(self.positions@[i].logs as int) == self.marks@[i].logs
            }
    }

    /// A recorded change keeps the subroutine sound.
    proof fn lemma_step(before: Self, after: Self, change: Change)
        requires
            before.wf(),
            after.logs == before.logs,
            after.positions == before.positions,
            after.marks == before.marks,
            after.changes@ == before.changes@.push(change),
            change.wf(),
            state_wf(after.state),
            undoable(accounts_of(after.state), change@),
            undo(accounts_of(after.state), change@) == accounts_of(before.state),
        ensures
            after.wf(),
    {
        assert(after.change_views() =~= before.change_views().push(change@));
        lemma_recorded(
            accounts_of(before.state),
            accounts_of(after.state),
            before.change_views(),
            change@,
        );
        assert forall|i: int| 0 <= i < after.positions@.len() implies unwound(
            accounts_of(after.state),
            after.change_views(),
            (#[trigger] after.positions@[i]).changes as nat,
        ) == after.marks@[i].accounts by {
            assert(before.positions@[i].changes <= before.changes@.len());
        }
    }

    /// A subroutine that starts out with the accounts in `state`, without logs
    /// or checkpoints.
    pub fn new(state: State) -> (r: Self)
        requires
            state_wf(state),
        ensures
            r.wf(),
            r@ == (SubView { accounts: accounts_of(state), ..SubView::empty() }),
    {
        let r = SubRoutine {
            state,
            logs: Vec::new(),
            changes: Vec::new(),
            positions: Vec::new(),
            marks: Ghost(Seq::empty()),
        };
        assert(r@.logs =~= Seq::empty());
        r
    }

    /// The number of open checkpoints.
    pub fn depth(&self) -> (r: u64)
        requires
            self.wf(),
        ensures
            r == self@.marks.len(),
    {
        self.positions.len() as u64
    }

    /// The logs so far.
    pub fn logs(&self) -> (r: &Vec<Log>)
        ensures
            r@.map_values(|log: Log| log@) == self@.logs,
    {
        &self.logs
    }

    /// The account at `address`, which must have been loaded.
    pub fn account(&self, address: H160) -> (r: &Account)
        requires
            self.wf(),
            self@.accounts.contains_key(address),
        ensures
            r@ == self@.accounts[address],
            r.storage.wf(),
    {
        self.state.get(&address).unwrap()
    }

    /// Loads the account at `address` unless it is loaded already, and says
    /// whether it was not.
    pub fn load_account<DB: Database>(&mut self, address: H160, db: &mut DB) -> (r: bool)
        requires
            old(self).wf(),
        ensures
            final(self).wf(),
            final(db).contents() == old(db).contents(),
            final(self)@ == old(self)@.load(old(db).contents(), address),
            r == !old(self)@.accounts.contains_key(address),
    {
        if self.state.contains_key(&address) {
            return false;
        }
        let account = Account {
            info: db.basic(address),
            storage: Table::new(),
            created: false,
            destroyed: false,
        };
        self.state.insert(address, account);
        self.changes.push(Change::Loaded { address });
        proof {
            lemma_accounts_insert(old(self).state, self.state, address, account);
            assert(undo(accounts_of(self.state), (address, ChangeView::Loaded)) =~= accounts_of(
                old(self).state,
            ));
            Self::lemma_step(*old(self), *self, Change::Loaded { address });
        }
        true
    }

    /// Sets the balance of `address`.
    fn set_balance(&mut self, address: H160, balance: U256)
        requires
            old(self).wf(),
            old(self)@.accounts.contains_key(address),
        ensures
            final(self).wf(),
            final(self)@ == old(self)@.with(
                address,
                old(self)@.accounts[address].with_balance(balance@),
            ),
    {
        let account = self.state.at_mut(&address);
        let change = Change::Balance { address, balance: account.info.balance };
        account.info.balance = balance;
        self.changes.push(change);
        proof {
            lemma_accounts_insert(old(self).state, self.state, address, self.state@[address]);
            assert(undo(accounts_of(self.state), change@) =~= accounts_of(old(self).state));
            Self::lemma_step(*old(self), *self, change);
        }
    }

    /// Raises the nonce of `address` by one and returns what it was.
    pub fn inc_nonce(&mut self, address: H160) -> (r: u64)
        requires
            old(self).wf(),
            old(self)@.accounts.contains_key(address),
        ensures
            final(self).wf(),
            final(self)@ == old(self)@.inc_nonce(address),
            r == old(self)@.accounts[address].info.nonce,
    {
        let account = self.state.at_mut(&address);
        let nonce = account.info.nonce;
        let change = Change::Nonce { address, nonce };
        account.info.nonce = nonce.wrapping_add(1);
        self.changes.push(change);
        proof {
            lemma_accounts_insert(old(self).state, self.state, address, self.state@[address]);
            assert(undo(accounts_of(self.state), change@) =~= accounts_of(old(self).state));
            Self::lemma_step(*old(self), *self, change);
        }
        nonce
    }

    /// Sets the code and the code hash of `address`.
    pub fn set_code(&mut self, address: H160, code: Bytes, code_hash: H256)
        requires
            old(self).wf(),
            old(self)@.accounts.contains_key(address),
        ensures
            final(self).wf(),
            final(self)@ == old(self)@.set_code(address, code_hash, octets(code)),
    {
        let account = self.state.at_mut(&address);
        let former_hash = account.info.code_hash;
        let former = account.info.code.take();
        account.info.code_hash = code_hash;
        account.info.code = Some(code);
        let change = Change::Code { address, code_hash: former_hash, code: former };
        self.changes.push(change);
        proof {
            lemma_accounts_insert(old(self).state, self.state, address, self.state@[address]);
            assert(undo(accounts_of(self.state), change@) =~= accounts_of(old(self).state));
            Self::lemma_step(*old(self), *self, change);
        }
    }

    /// Loads the account at `address` and its code. The account is returned with
    /// whether it was not loaded before.
    pub fn load_code<DB: Database>(&mut self, address: H160, db: &mut DB) -> (r: (&Account, bool))
        requires
            old(self).wf(),
        ensures
            final(self).wf(),
            final(db).contents() == old(db).contents(),
            final(self)@ == old(self)@.load_code(old(db).contents(), address),
            r.0@ == final(self)@.accounts[address],
            r.0.info.code is Some,
            r.1 == !old(self)@.accounts.contains_key(address),
    {
        let is_cold = self.load_account(address, db);
        let code_hash = self.account(address).info.code_hash;
        if self.account(address).info.code.is_none() {
            let code = db.code_by_hash(code_hash);
            self.set_code(address, code, code_hash);
        }
        (self.account(address), is_cold)
    }

    /// Loads the account at `address` and its code. Says whether it was not
    /// loaded before, and whether there is anything at the address.
    pub fn load_account_exist<DB: Database>(&mut self, address: H160, db: &mut DB) -> (r: (
        bool,
        bool,
    ))
        requires
            old(self).wf(),
        ensures
            final(self).wf(),
            final(db).contents() == old(db).contents(),
            final(self)@ == old(self)@.load_code(old(db).contents(), address),
            r.0 == !old(self)@.accounts.contains_key(address),
            r.1 == final(self)@.accounts[address].is_live(),
    {
        let (account, is_cold) = self.load_code(address, db);
        (is_cold, is_live(account))
    }

    /// Reads the storage word of `address` at `index`. Says whether it was read
    /// for the first time.
    pub fn sload<DB: Database>(&mut self, address: H160, index: H256, db: &mut DB) -> (r: (
        H256,
        bool,
    ))
        requires
            old(self).wf(),
        ensures
            final(self).wf(),
            final(db).contents() == old(db).contents(),
            final(self)@ == old(self)@.load_slot(old(db).contents(), address, index),
            r.0 == final(self)@.accounts[address].storage[index].present,
            r.1 == !old(self)@.has_slot(address, index),
    {
        let _ = self.load_account(address, db);
        let ghost loaded = *self;
        let account = self.account(address);
        match account.storage.get(&index) {
            Some(slot) => (slot.present, false),
            None => {
                let value = if account.created {
                    H256::zero()
                } else {
                    db.storage(address, index)
                };
                let slot = Slot { original: value, present: value };
                let account = self.state.at_mut(&address);
                account.storage.insert(index, slot);
                let change = Change::SlotLoaded { address, index };
                self.changes.push(change);
                proof {
                    lemma_accounts_insert(loaded.state, self.state, address, self.state@[address]);
                    assert(self@.accounts[address].storage.remove(index)
                        =~= loaded@.accounts[address].storage);
                    assert(undo(accounts_of(self.state), change@) =~= accounts_of(loaded.state));
                    Self::lemma_step(loaded, *self, change);
                }
                (value, true)
            },
        }
    }

    /// Writes `value` to the storage of `address` at `index`. Returns the value
    /// before the transaction, the value just before the write, the new value,
    /// and whether the word was touched for the first time.
    pub fn sstore<DB: Database>(
        &mut self,
        address: H160,
        index: H256,
        value: H256,
        db: &mut DB,
    ) -> (r: (H256, H256, H256, bool))
        requires
            old(self).wf(),
        ensures
            final(self).wf(),
            final(db).contents() == old(db).contents(),
            final(self)@ == old(self)@.store_slot(old(db).contents(), address, index, value),
            ({
                let slot = old(self)@.load_slot(
                    old(db).contents(),
                    address,
                    index,
                ).accounts[address].storage[index];
                r == (slot.original, slot.present, value, !old(self)@.has_slot(address, index))
            }),
    {
        let (present, is_cold) = self.sload(address, index, db);
        let ghost loaded = *self;
        assert(loaded@.has_slot(address, index));
        let account = self.state.at_mut(&address);
        let slot = account.storage.at_mut(&index);
        let original = slot.original;
        slot.present = value;
        let change = Change::SlotWritten { address, index, present };
        self.changes.push(change);
        proof {
            lemma_accounts_insert(loaded.state, self.state, address, self.state@[address]);
            assert(undo(accounts_of(self.state), change@)[address].storage
                =~= loaded@.accounts[address].storage);
            assert(undo(accounts_of(self.state), change@) =~= accounts_of(loaded.state));
            Self::lemma_step(loaded, *self, change);
        }
        (original, present, value, is_cold)
    }

    /// Adds a log.
    pub fn log(&mut self, log: Log)
        requires
            old(self).wf(),
        ensures
            final(self).wf(),
            final(self)@ == old(self)@.logged(log@),
    {
        self.logs.push(log);
        proof {
            assert(self@.logs =~= old(self)@.logs.push(log@));
            assert forall|i: int| 0 <= i < self.positions@.len() implies self@.logs.take(
                (#[trigger] self.positions@[i]).logs as int,
            ) == self.marks@[i].logs by {
                let n = old(self).positions@[i].logs as int;
                assert(self@.logs.take(n) =~= old(self)@.logs.take(n));
            }
        }
    }
}

impl SubRoutine {
    /// Moves `value` from `source` to `target`.
    pub fn transfer<DB: Database>(
        &mut self,
        source: H160,
        target: H160,
        value: U256,
        db: &mut DB,
    ) -> (r: Result<(), ExitError>)
        requires
            old(self).wf(),
        ensures
            final(self).wf(),
            final(db).contents() == old(db).contents(),
            (final(self)@, r) == old(self)@.transfer(old(db).contents(), source, target, value@),
    {
        let _ = self.load_account(source, db);
        let _ = self.load_account(target, db);
        let left = match self.account(source).info.balance.checked_sub(value) {
            Some(left) => left,
            None => {
                return Err(ExitError::OutOfFund);
            },
        };
        if source.same(&target) {
            return Ok(());
        }
        let received = match self.account(target).info.balance.checked_add(value) {
            Some(received) => received,
            None => {
                return Err(ExitError::OverflowPayment);
            },
        };
        proof {
            lemma_u256_bound(received);
        }
        self.set_balance(source, left);
        self.set_balance(target, received);
        Ok(())
    }

    /// Starts a contract at `address`. Returns whether the address was free.
    pub fn new_contract_acc<DB: Database>(
        &mut self,
        address: H160,
        precompiles: &Vec<H160>,
        db: &mut DB,
    ) -> (r: bool)
        requires
            old(self).wf(),
        ensures
            final(self).wf(),
            final(db).contents() == old(db).contents(),
            (final(self)@, r) == old(self)@.new_contract(
                old(db).contents(),
                address,
                precompiles@,
            ),
    {
        let (account, _) = self.load_code(address, db);
        if account.info.nonce != 0 || has_code(account) || contains_address(precompiles, &address) {
            return false;
        }
        let ghost loaded = *self;
        assert(loaded@.accounts.contains_key(address));
        let account = self.state.at_mut(&address);
        let created = account.created;
        account.created = true;
        let mut storage: Table<H256, Slot> = Table::new();
        std::mem::swap(&mut account.storage, &mut storage);
        let change = Change::Created { address, storage, created };
        self.changes.push(change);
        proof {
            lemma_accounts_insert(loaded.state, self.state, address, self.state@[address]);
            assert(undo(accounts_of(self.state), change@) =~= accounts_of(loaded.state));
            Self::lemma_step(loaded, *self, change);
        }
        true
    }

    /// Marks the account at `address` for deletion.
    fn mark_destroyed(&mut self, address: H160)
        requires
            old(self).wf(),
            old(self)@.accounts.contains_key(address),
        ensures
            final(self).wf(),
            final(self)@ == old(self)@.with(
                address,
                AccountView { destroyed: true, ..old(self)@.accounts[address] },
            ),
    {
        let account = self.state.at_mut(&address);
        let change = Change::Destroyed { address, destroyed: account.destroyed };
        account.destroyed = true;
        self.changes.push(change);
        proof {
            lemma_accounts_insert(old(self).state, self.state, address, self.state@[address]);
            assert(undo(accounts_of(self.state), change@) =~= accounts_of(old(self).state));
            Self::lemma_step(*old(self), *self, change);
        }
    }

    /// Marks the account at `address` for deletion and hands its balance to
    /// `target`.
    pub fn selfdestruct<DB: Database>(
        &mut self,
        address: H160,
        target: H160,
        db: &mut DB,
    ) -> (r: SelfDestructResult)
        requires
            old(self).wf(),
        ensures
            final(self).wf(),
            final(db).contents() == old(db).contents(),
            final(self)@ == old(self)@.destroy(old(db).contents(), address, target),
            r == old(self)@.destroy_result(old(db).contents(), address, target),
    {
        let _ = self.load_account(address, db);
        let (is_cold, exists_before) = self.load_account_exist(target, db);
        let ghost loaded = self@;
        let balance = self.account(address).info.balance;
        let previously_destroyed = self.account(address).destroyed;
        if !address.same(&target) {
            let sum = match self.account(target).info.balance.checked_add(balance) {
                Some(sum) => sum,
                None => U256::max(),
            };
            proof {
                lemma_u256_bound(sum);
            }
            self.set_balance(target, sum);
        }
        let ghost paid = self@;
        self.set_balance(address, U256::zero());
        self.mark_destroyed(address);
        assert(self@.accounts =~= paid.with(
            address,
            AccountView { destroyed: true, ..paid.accounts[address].with_balance(0) },
        ).accounts);
        let zero = U256::zero();
        SelfDestructResult {
            had_value: zero.less_than(&balance),
            exists: exists_before,
            is_cold,
            previously_destroyed,
        }
    }

    /// Opens a checkpoint.
    pub fn create_checkpoint(&mut self) -> (r: SubRoutineCheckpoint)
        requires
            old(self).wf(),
        ensures
            final(self).wf(),
            final(self)@ == old(self)@.marked(),
            r.index == old(self)@.marks.len(),
    {
        let index = self.positions.len();
        let position = Position { changes: self.changes.len(), logs: self.logs.len() };
        self.positions.push(position);
        self.marks = Ghost(self.marks@.push(Mark { accounts: self@.accounts, logs: self@.logs }));
        proof {
            assert(self@.logs.take(self.logs@.len() as int) =~= self@.logs);
        }
        SubRoutineCheckpoint { index }
    }

    /// Closes a checkpoint and all inside it, keeping what was done since.
    pub fn checkpoint_commit(&mut self, checkpoint: SubRoutineCheckpoint)
        requires
            old(self).wf(),
            checkpoint.index < old(self)@.marks.len(),
        ensures
            final(self).wf(),
            final(self)@ == old(self)@.committed(checkpoint.index as int),
    {
        self.positions.truncate(checkpoint.index);
        self.marks = Ghost(self.marks@.take(checkpoint.index as int));
    }

    /// Closes a checkpoint and all inside it, taking back what was done since.
    pub fn checkpoint_revert(&mut self, checkpoint: SubRoutineCheckpoint)
        requires
            old(self).wf(),
            checkpoint.index < old(self)@.marks.len(),
        ensures
            final(self).wf(),
            final(self)@ == old(self)@.rolled_back(checkpoint.index as int),
    {
        let index = checkpoint.index;
        let position = self.positions[index];
        let open = self.positions.len();
        assert(index < open);
        self.positions.truncate(index + 1);
        self.marks = Ghost(self.marks@.take(index + 1));
        while self.changes.len() > position.changes
            invariant
                self.wf(),
                self.positions@ == old(self).positions@.take(index + 1),
                self.marks@ == old(self).marks@.take(index + 1),
                self.logs == old(self).logs,
                index < old(self).positions@.len(),
                position == old(self).positions@[index as int],
            decreases self.changes@.len(),
        {
            let ghost before = *self;
            let change = self.changes.pop().unwrap();
            proof {
                assert(before.change_views().last() == change@);
                assert(self.change_views() =~= before.change_views().drop_last());
            }
            undo_change(&mut self.state, change);
            proof {
                assert forall|i: int| 0 <= i < self.positions@.len() implies {
                    &&& (#[trigger] self.positions@[i]).changes <= self.changes@.len()
                    &&& unwound(
                        accounts_of(self.state),
                        self.change_views(),
                        self.positions@[i].changes as nat,
                    ) == self.marks@[i].accounts
                } by {
                    assert(before.positions@[i].changes <= before.positions@[index as int].changes);
                }
            }
        }
        proof {
            assert(self.positions@[index as int].changes == self.changes@.len());
            assert(self@.accounts == old(self)@.marks[index as int].accounts);
        }
        let ghost unwound_self = *self;
        self.logs.truncate(position.logs);
        self.positions.truncate(index);
        self.marks = Ghost(self.marks@.take(index as int));
        proof {
            assert(self@.logs =~= unwound_self@.logs.take(position.logs as int));
            assert(self@.marks =~= old(self)@.marks.take(index as int));
            assert forall|i: int| 0 <= i < self.positions@.len() implies self@.logs.take(
                (#[trigger] self.positions@[i]).logs as int,
            ) == self.marks@[i].logs by {
                assert(unwound_self.positions@[i].logs
                    <= unwound_self.positions@[index as int].logs);
                let n = self.positions@[i].logs as int;
                assert(self@.logs.take(n) =~= unwound_self@.logs.take(n));
            }
        }
    }

    /// Closes a checkpoint and all inside it after a failure, taking back what
    /// was done since.
    pub fn checkpoint_discard(&mut self, checkpoint: SubRoutineCheckpoint)
        requires
            old(self).wf(),
            checkpoint.index < old(self)@.marks.len(),
        ensures
            final(self).wf(),
            final(self)@ == old(self)@.rolled_back(checkpoint.index as int),
    {
        self.checkpoint_revert(checkpoint);
    }

    /// Ends the transaction: hands out every account that it loaded, as the
    /// account now stands, and leaves the subroutine as a new one.
    pub fn finalize(&mut self) -> (r: State)
        requires
            old(self).wf(),
        ensures
            final(self).wf(),
            final(self)@ == SubView::empty(),
            state_wf(r),
            accounts_of(r) == old(self)@.accounts,
    {
        let mut ended = SubRoutine::new(Table::new());
        assert(ended@.accounts =~= Map::empty());
        std::mem::swap(self, &mut ended);
        ended.state
    }
}

/// Whether the account holds value, has sent anything, or has code.
fn is_live(account: &Account) -> (r: bool)
    requires
        account.info.code is Some,
    ensures
        r == account@.is_live(),
{
    let zero = U256::zero();
    zero.less_than(&account.info.balance) || account.info.nonce != 0 || has_code(account)
}

/// Whether the account has code.
fn has_code(account: &Account) -> (r: bool)
    requires
        account.info.code is Some,
    ensures
        r == account@.has_code(),
{
    match &account.info.code {
        Some(code) => !buffer_is_empty(code),
        None => false,
    }
}

} // verus!
