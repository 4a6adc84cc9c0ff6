//! The database that holds the state of the chain before a transaction.
use crate::buffer::{empty_buffer, octets, share_buffer};
use crate::primitives::{zero_hash, Key, H160, H256, U256};
use crate::table::Table;
use bytes::Bytes;
use vstd::prelude::*;

verus! {

/// What an account is apart from its storage.
#[derive(Debug)]
pub struct AccountInfo {
    pub balance: U256,
    pub nonce: u64,
    pub code_hash: H256,
    /// The code, or `None` while it has not been fetched.
    pub code: Option<Bytes>,
}

/// What an `AccountInfo` holds.
pub struct InfoView {
    pub balance: nat,
    pub nonce: u64,
    pub code_hash: H256,
    pub code: Option<Seq<u8>>,
}

/// The bytes of a code that may not have been fetched.
pub open spec fn code_octets(code: Option<Bytes>) -> Option<Seq<u8>> {
    match code {
        Some(bytes) => Some(octets(bytes)),
        None => None,
    }
}

impl View for AccountInfo {
    type V = InfoView;

    open spec fn view(&self) -> InfoView {
        InfoView {
            balance: self.balance@,
            nonce: self.nonce,
            code_hash: self.code_hash,
            code: code_octets(self.code),
        }
    }
}

/// Everything that a database answers.
#[verifier::ext_equal]
pub struct DbView {
    pub accounts: spec_fn(H160) -> InfoView,
    pub codes: spec_fn(H256) -> Seq<u8>,
    pub storage: spec_fn(H160, H256) -> H256,
    pub block_hashes: spec_fn(U256) -> H256,
}

/// A source of accounts, codes, storage words and block hashes.
///
/// Reading may fill caches, hence the mutable receivers, but it does not change
/// what later reads answer.
pub trait Database {
    /// What the database answers.
    spec fn contents(&self) -> DbView;

    /// The account at `address`.
    fn basic(&mut self, address: H160) -> (r: AccountInfo)
        ensures
            r@ == (old(self).contents().accounts)(address),
            final(self).contents() == old(self).contents(),
    ;

    /// The code with the hash `code_hash`.
    fn code_by_hash(&mut self, code_hash: H256) -> (r: Bytes)
        ensures
            octets(r) == (old(self).contents().codes)(code_hash),
            final(self).contents() == old(self).contents(),
    ;

    /// The storage word of `address` at `index`.
    fn storage(&mut self, address: H160, index: H256) -> (r: H256)
        ensures
            r == (old(self).contents().storage)(address, index),
            final(self).contents() == old(self).contents(),
    ;

    /// The hash of block `number`.
    fn block_hash(&mut self, number: U256) -> (r: H256)
        ensures
            r == (old(self).contents().block_hashes)(number),
            final(self).contents() == old(self).contents(),
    ;
}

/// The place of a storage word.
#[derive(Clone, Copy, Debug, PartialEq, Eq)]
pub struct StorageKey {
    pub address: H160,
    pub index: H256,
}

impl Key for StorageKey {
    fn same(&self, other: &Self) -> (r: bool) {
        self.address.same(&other.address) && self.index.same(&other.index)
    }
}

/// A database in memory. What it does not hold is empty: an account without
/// value, nonce or code, code without bytes, words and hashes of zero bits.
pub struct MemoryDb {
    accounts: Table<H160, AccountInfo>,
    codes: Table<H256, Bytes>,
    words: Table<StorageKey, H256>,
    hashes: Table<U256, H256>,
}

/// An account without value, nonce or code.
pub open spec fn no_account() -> InfoView {
    InfoView { balance: 0, nonce: 0, code_hash: zero_hash(), code: Some(Seq::empty()) }
}

/// What a database does not hold has no value, no nonce, the zero code hash, and code
/// that is known to have no bytes.
pub proof fn law_no_account()
    ensures
        no_account().balance == 0,
        no_account().nonce == 0,
        no_account().code_hash == zero_hash(),
        no_account().code matches Some(code) && code.len() == 0,
{
}

impl MemoryDb {
    /// The tables are sound.
    #[verifier::type_invariant]
    closed spec fn wf(self) -> bool {
        self.accounts.wf() && self.codes.wf() && self.words.wf() && self.hashes.wf()
    }

    spec fn account_at(self, address: H160) -> InfoView {
        if self.accounts@.contains_key(address) {
            self.accounts@[address]@
        } else {
            no_account()
        }
    }

    spec fn code_at(self, code_hash: H256) -> Seq<u8> {
        if self.codes@.contains_key(code_hash) {
            octets(self.codes@[code_hash])
        } else {
            Seq::empty()
        }
    }

    spec fn word_at(self, address: H160, index: H256) -> H256 {
        if self.words@.contains_key(StorageKey { address, index }) {
            self.words@[StorageKey { address, index }]
        } else {
            zero_hash()
        }
    }

    spec fn hash_at(self, number: U256) -> H256 {
        if self.hashes@.contains_key(number) {
            self.hashes@[number]
        } else {
            zero_hash()
        }
    }

    /// A database that holds nothing.
    pub fn new() -> (r: Self)
        ensures
            r.contents() == (DbView {
                accounts: |address: H160| no_account(),
                codes: |code_hash: H256| Seq::<u8>::empty(),
                storage: |address: H160, index: H256| zero_hash(),
                block_hashes: |number: U256| zero_hash(),
            }),
    {
        let r = MemoryDb {
            accounts: Table::new(),
            codes: Table::new(),
            words: Table::new(),
            hashes: Table::new(),
        };
        assert(r.contents().accounts =~= (|address: H160| no_account()));
        assert(r.contents().codes =~= (|code_hash: H256| Seq::<u8>::empty()));
        assert(r.contents().storage =~= (|address: H160, index: H256| zero_hash()));
        assert(r.contents().block_hashes =~= (|number: U256| zero_hash()));
        r
    }

    /// With `info` at `address`.
    pub fn with_account(self, address: H160, info: AccountInfo) -> (r: Self)
        ensures
            r.contents() == (DbView {
                accounts: |a: H160|
                    if a == address {
                        info@
                    } else {
                        (self.contents().accounts)(a)
                    },
                ..self.contents()
            }),
    {
        proof {
            use_type_invariant(&self);
        }
        let ghost before = self;
        let MemoryDb { mut accounts, codes, words, hashes } = self;
        accounts.insert(address, info);
        let r = MemoryDb { accounts, codes, words, hashes };
        assert(r.contents().accounts =~= (|a: H160|
            if a == address {
                info@
            } else {
                (before.contents().accounts)(a)
            }));
        assert(r.contents().codes =~= before.contents().codes);
        assert(r.contents().storage =~= before.contents().storage);
        assert(r.contents().block_hashes =~= before.contents().block_hashes);
        r
    }

    /// With `code` under the hash `code_hash`.
    pub fn with_code(self, code_hash: H256, code: Bytes) -> (r: Self)
        ensures
            r.contents() == (DbView {
                codes: |h: H256|
                    if h == code_hash {
                        octets(code)
                    } else {
                        (self.contents().codes)(h)
                    },
                ..self.contents()
            }),
    {
        proof {
            use_type_invariant(&self);
        }
        let ghost before = self;
        let MemoryDb { accounts, mut codes, words, hashes } = self;
        codes.insert(code_hash, code);
        let r = MemoryDb { accounts, codes, words, hashes };
        assert(r.contents().accounts =~= before.contents().accounts);
        assert(r.contents().codes =~= (|h: H256|
            if h == code_hash {
                octets(code)
            } else {
                (before.contents().codes)(h)
            }));
        assert(r.contents().storage =~= before.contents().storage);
        assert(r.contents().block_hashes =~= before.contents().block_hashes);
        r
    }

    /// With `word` in the storage of `address` at `index`.
    pub fn with_storage(self, address: H160, index: H256, word: H256) -> (r: Self)
        ensures
            r.contents() == (DbView {
                storage: |a: H160, i: H256|
                    if a == address && i == index {
                        word
                    } else {
                        (self.contents().storage)(a, i)
                    },
                ..self.contents()
            }),
    {
        proof {
            use_type_invariant(&self);
        }
        let ghost before = self;
        let MemoryDb { accounts, codes, mut words, hashes } = self;
        words.insert(StorageKey { address, index }, word);
        let r = MemoryDb { accounts, codes, words, hashes };
        assert(r.contents().accounts =~= before.contents().accounts);
        assert(r.contents().codes =~= before.contents().codes);
        assert(r.contents().storage =~= (|a: H160, i: H256|
            if a == address && i == index {
                word
            } else {
                (before.contents().storage)(a, i)
            }));
        assert(r.contents().block_hashes =~= before.contents().block_hashes);
        r
    }

    /// With `hash` as the hash of block `number`.
    pub fn with_block_hash(self, number: U256, hash: H256) -> (r: Self)
        ensures
            r.contents() == (DbView {
                block_hashes: |n: U256|
                    if n == number {
                        hash
                    } else {
                        (self.contents().block_hashes)(n)
                    },
                ..self.contents()
            }),
    {
        proof {
            use_type_invariant(&self);
        }
        let ghost before = self;
        let MemoryDb { accounts, codes, words, mut hashes } = self;
        hashes.insert(number, hash);
        let r = MemoryDb { accounts, codes, words, hashes };
        assert(r.contents().accounts =~= before.contents().accounts);
        assert(r.contents().codes =~= before.contents().codes);
        assert(r.contents().storage =~= before.contents().storage);
        assert(r.contents().block_hashes =~= (|n: U256|
            if n == number {
                hash
            } else {
                (before.contents().block_hashes)(n)
            }));
        r
    }
}

/// Another handle on the same account.
fn share_info(info: &AccountInfo) -> (r: AccountInfo)
    ensures
        r@ == info@,
{
    AccountInfo {
        balance: info.balance,
        nonce: info.nonce,
        code_hash: info.code_hash,
        code: match &info.code {
            Some(code) => Some(share_buffer(code)),
            None => None,
        },
    }
}

impl Database for MemoryDb {
    closed spec fn contents(&self) -> DbView {
        DbView {
            accounts: |address: H160| self.account_at(address),
            codes: |code_hash: H256| self.code_at(code_hash),
            storage: |address: H160, index: H256| self.word_at(address, index),
            block_hashes: |number: U256| self.hash_at(number),
        }
    }

    fn basic(&mut self, address: H160) -> (r: AccountInfo) {
        proof {
            use_type_invariant(&*self);
        }
        match self.accounts.get(&address) {
            Some(info) => share_info(info),
            None => AccountInfo {
                balance: U256::zero(),
                nonce: 0,
                code_hash: H256::zero(),
                code: Some(empty_buffer()),
            },
        }
    }

    fn code_by_hash(&mut self, code_hash: H256) -> (r: Bytes) {
        proof {
            use_type_invariant(&*self);
        }
        match self.codes.get(&code_hash) {
            Some(code) => share_buffer(code),
            None => empty_buffer(),
        }
    }

    fn storage(&mut self, address: H160, index: H256) -> (r: H256) {
        proof {
            use_type_invariant(&*self);
        }
        match self.words.get(&StorageKey { address, index }) {
            Some(word) => *word,
            None => H256::zero(),
        }
    }

    fn block_hash(&mut self, number: U256) -> (r: H256) {
        proof {
            use_type_invariant(&*self);
        }
        match self.hashes.get(&number) {
            Some(hash) => *hash,
            None => H256::zero(),
        }
    }
}

} // verus!
