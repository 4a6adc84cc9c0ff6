//! Numbers, hashes, addresses, tables and the record of changes.
use bytes::Bytes;
use evm::digest::keccak_hash;
use evm::machine::Gas;
use evm::table::Table;
use evm::util::{create2_address, create_address};
use evm::{
    AccountInfo, Database, ExitError, Log, MemoryDb, Precompile, Precompiles, SubRoutine, H160,
    H256, U256,
};

fn unhex(text: &str) -> Vec<u8> {
    hex::decode(text).unwrap()
}

fn h160(text: &str) -> H160 {
    let mut bytes = [0; 20];
    bytes.copy_from_slice(&unhex(text));
    H160(bytes)
}

fn account(n: u8) -> H160 {
    H160([n; 20])
}

fn word(n: u8) -> H256 {
    let mut bytes = [0; 32];
    bytes[31] = n;
    H256(bytes)
}

fn holder(balance: u64, nonce: u64) -> AccountInfo {
    AccountInfo {
        balance: U256::from_u64(balance),
        nonce,
        code_hash: H256::zero(),
        code: None,
    }
}

#[test]
fn keccak_of_known_texts() {
    assert_eq!(
        keccak_hash(&[]).0.to_vec(),
        unhex("c5d2460186f7233c927e7db2dcc703c0e500b653ca82273b7bfad8045d85a470")
    );
    assert_eq!(
        keccak_hash(b"abc").0.to_vec(),
        unhex("4e03657aea45a94fc7d47ba826c8d667c0d1e6e33a64a036ec44f58fa12d6c45")
    );
}

#[test]
fn addresses_by_nonce() {
    let creator = h160("6ac7ea33f8831ea9dcc53393aaa88b25a785dbf0");
    assert_eq!(create_address(creator, 0), h160("cd234a471b72ba2f1ccf0a70fcaba648a5eecd8d"));
    assert_eq!(create_address(creator, 1), h160("343c43a37d37dff08ae8c4a11544c718abb4fcf8"));
    assert_eq!(create_address(creator, 2), h160("f778b86fa74e846c4f0a1fbd1335fe81c00a0c91"));
}

#[test]
fn addresses_by_nonce_encode_every_length() {
    let creator = account(0x11);
    for (nonce, tail) in [
        (0x7fu64, vec![0x7f]),
        (0x80, vec![0x81, 0x80]),
        (0x100, vec![0x82, 0x01, 0x00]),
        (u64::MAX, vec![0x88, 0xff, 0xff, 0xff, 0xff, 0xff, 0xff, 0xff, 0xff]),
    ] {
        let mut list = vec![0xc0 + 21 + tail.len() as u8, 0x94];
        list.extend_from_slice(&creator.0);
        list.extend_from_slice(&tail);
        let hash = keccak_hash(&list);
        assert_eq!(create_address(creator, nonce).0.to_vec(), hash.0[12..].to_vec());
    }
}

#[test]
fn addresses_by_salt() {
    let zero = H160([0; 20]);
    assert_eq!(
        create2_address(zero, keccak_hash(&[0]), H256::zero()),
        h160("4d1a2e2bb4f88f0250f26ffff098b0b30b26bf38")
    );
    assert_eq!(
        create2_address(
            h160("deadbeef00000000000000000000000000000000"),
            keccak_hash(&[0]),
            H256::zero()
        ),
        h160("b928f69bb1d91cd65274e3c79d8986362984fda3")
    );
}

#[test]
fn numbers_of_256_bits() {
    let five = U256::from_u64(5);
    let big = U256([0, 1, 0, 0]);
    assert_eq!(five, U256([5, 0, 0, 0]));
    assert!(five.less_than(&big));
    assert!(!big.less_than(&five));
    assert!(!five.less_than(&five));
    assert_eq!(U256::from_u64(u64::MAX).times(U256::from_u64(2)), U256([u64::MAX - 1, 1, 0, 0]));
    assert_eq!(
        U256::from_u64(u64::MAX).checked_mul(U256::from_u64(2)),
        Some(U256([u64::MAX - 1, 1, 0, 0]))
    );
    assert_eq!(U256([0, 0, 0, 1]).checked_mul(U256([0, 1, 0, 0])), None);
    assert_eq!(U256([u64::MAX, 0, 0, 0]).checked_add(U256::from_u64(1)), Some(big));
    assert_eq!(U256::max().checked_add(U256::from_u64(1)), None);
    assert_eq!(big.checked_sub(U256::from_u64(1)), Some(U256([u64::MAX, 0, 0, 0])));
    assert_eq!(five.checked_sub(big), None);
    assert_eq!(U256::zero(), U256([0; 4]));
    assert_eq!(H256::zero(), H256([0; 32]));
    assert_eq!(H256::from_slice(&[7; 32]), H256([7; 32]));
    let mut hash = [0; 32];
    hash[12] = 9;
    hash[31] = 8;
    let mut address = [0; 20];
    address[0] = 9;
    address[19] = 8;
    assert_eq!(H160::from_hash(H256(hash)), H160(address));
}

#[test]
fn table_holds_the_last_value_of_each_key() {
    let mut table: Table<H256, u32> = Table::new();
    assert!(table.get(&word(1)).is_none());
    table.insert(word(1), 10);
    table.insert(word(2), 20);
    table.insert(word(1), 11);
    assert_eq!(table.get(&word(1)), Some(&11));
    assert_eq!(table.get(&word(2)), Some(&20));
    *table.at_mut(&word(2)) = 21;
    assert_eq!(table.get(&word(2)), Some(&21));
    table.remove(&word(1));
    assert!(!table.contains_key(&word(1)));
    assert!(table.contains_key(&word(2)));
    table.remove(&word(1));
    assert!(table.contains_key(&word(2)));
}

#[test]
fn gas_meter_never_passes_its_limit() {
    let mut gas = Gas::new(10);
    assert!(gas.record_cost(7));
    assert_eq!(gas.remaining(), 3);
    assert!(!gas.record_cost(4));
    assert_eq!(gas.all_used(), 7);
    assert!(!gas.record_cost(u64::MAX));
    assert!(gas.record_cost(3));
    assert_eq!(gas.remaining(), 0);
    assert_eq!(gas.limit(), 10);
    assert_eq!(Gas::default().limit(), 0);
}

#[test]
fn precompiles_are_found_by_address() {
    let entries = vec![
        Precompile { address: account(1), function: 7 },
        Precompile { address: account(2), function: 8 },
        Precompile { address: account(1), function: 9 },
    ];
    let precompiles = Precompiles::of(entries);
    assert_eq!(
        precompiles.get_fun(&account(1)),
        Some(Precompile { address: account(1), function: 7 })
    );
    assert_eq!(
        precompiles.get_fun(&account(2)),
        Some(Precompile { address: account(2), function: 8 })
    );
    assert_eq!(precompiles.get_fun(&account(3)), None);
    assert_eq!(precompiles.addresses(), vec![account(1), account(2), account(1)]);
    assert!(Precompiles::new().addresses().is_empty());
}

#[test]
fn memory_database_answers() {
    let mut db = MemoryDb::new()
        .with_account(account(1), holder(3, 4))
        .with_code(word(1), Bytes::from(vec![1, 2]))
        .with_storage(account(1), word(5), word(6))
        .with_block_hash(U256::from_u64(9), word(7));
    let info = db.basic(account(1));
    assert_eq!(info.balance, U256::from_u64(3));
    assert_eq!(info.nonce, 4);
    assert!(info.code.is_none());
    let missing = db.basic(account(2));
    assert_eq!(missing.balance, U256::zero());
    assert_eq!(missing.nonce, 0);
    assert_eq!(missing.code.unwrap().len(), 0);
    assert_eq!(db.code_by_hash(word(1)).as_ref(), &[1, 2]);
    assert!(db.code_by_hash(word(2)).is_empty());
    assert_eq!(db.storage(account(1), word(5)), word(6));
    assert_eq!(db.storage(account(2), word(5)), word(0));
    assert_eq!(db.block_hash(U256::from_u64(9)), word(7));
    assert_eq!(db.block_hash(U256::from_u64(8)), word(0));
}

#[test]
fn loading_tells_cold_from_warm() {
    let mut db = MemoryDb::new()
        .with_account(account(1), holder(3, 4))
        .with_storage(account(1), word(5), word(6));
    let mut sub = SubRoutine::new(Table::new());
    assert!(sub.load_account(account(1), &mut db));
    assert!(!sub.load_account(account(1), &mut db));
    assert_eq!(sub.account(account(1)).info.nonce, 4);
    assert_eq!(sub.sload(account(1), word(5), &mut db), (word(6), true));
    assert_eq!(sub.sload(account(1), word(5), &mut db), (word(6), false));
    let (loaded, is_cold) = sub.load_code(account(2), &mut db);
    assert!(is_cold);
    assert!(loaded.info.code.is_some());
}

#[test]
fn every_kind_of_change_is_taken_back() {
    let mut db = MemoryDb::new()
        .with_account(account(1), holder(100, 4))
        .with_storage(account(1), word(5), word(6));
    let mut sub = SubRoutine::new(Table::new());
    sub.load_account(account(1), &mut db);
    sub.sload(account(1), word(5), &mut db);
    let outer = sub.create_checkpoint();
    assert_eq!(sub.depth(), 1);
    sub.log(Log { address: account(1), topics: vec![word(1)], data: Bytes::new() });
    assert_eq!(sub.inc_nonce(account(1)), 4);
    assert!(sub.transfer(account(1), account(2), U256::from_u64(30), &mut db).is_ok());
    sub.sstore(account(1), word(5), word(7), &mut db);
    let inner = sub.create_checkpoint();
    assert_eq!(sub.depth(), 2);
    sub.sstore(account(1), word(5), word(8), &mut db);
    sub.sstore(account(1), word(9), word(1), &mut db);
    assert!(sub.new_contract_acc(account(3), &vec![], &mut db));
    assert_eq!(sub.sload(account(3), word(5), &mut db), (word(0), true));
    sub.set_code(account(3), Bytes::from(vec![1]), word(77));
    sub.selfdestruct(account(1), account(3), &mut db);
    assert_eq!(sub.account(account(3)).info.balance, U256::from_u64(70));
    assert!(sub.account(account(1)).destroyed);
    sub.log(Log { address: account(3), topics: vec![], data: Bytes::from(vec![5]) });
    assert_eq!(sub.logs().len(), 2);
    assert_eq!(sub.logs()[1].address, account(3));
    assert_eq!(sub.logs()[1].data.as_ref(), &[5]);
    sub.checkpoint_revert(inner);
    assert_eq!(sub.depth(), 1);
    assert_eq!(sub.logs().len(), 1);
    assert_eq!(sub.logs()[0].topics, vec![word(1)]);
    assert!(!sub.account(account(1)).destroyed);
    assert_eq!(sub.account(account(1)).info.balance, U256::from_u64(70));
    assert_eq!(sub.account(account(2)).info.balance, U256::from_u64(30));
    assert_eq!(sub.sload(account(1), word(5), &mut db), (word(7), false));
    assert_eq!(sub.sload(account(1), word(9), &mut db), (word(0), true));
    assert!(sub.load_account(account(3), &mut db));
    sub.checkpoint_discard(outer);
    assert_eq!(sub.depth(), 0);
    assert!(sub.logs().is_empty());
    let info = &sub.account(account(1)).info;
    assert_eq!(info.balance, U256::from_u64(100));
    assert_eq!(info.nonce, 4);
    assert_eq!(sub.sload(account(1), word(5), &mut db), (word(6), false));
    assert!(sub.load_account(account(2), &mut db));
}

#[test]
fn committed_changes_stay_until_the_outer_checkpoint_is_reverted() {
    let mut db = MemoryDb::new().with_account(account(1), holder(100, 4));
    let mut sub = SubRoutine::new(Table::new());
    sub.load_account(account(1), &mut db);
    let outer = sub.create_checkpoint();
    let inner = sub.create_checkpoint();
    sub.inc_nonce(account(1));
    sub.checkpoint_commit(inner);
    assert_eq!(sub.depth(), 1);
    assert_eq!(sub.account(account(1)).info.nonce, 5);
    sub.checkpoint_revert(outer);
    assert_eq!(sub.account(account(1)).info.nonce, 4);
}

#[test]
fn closing_a_checkpoint_closes_those_inside() {
    let mut db = MemoryDb::new();
    let mut sub = SubRoutine::new(Table::new());
    let outer = sub.create_checkpoint();
    sub.load_account(account(1), &mut db);
    sub.create_checkpoint();
    sub.create_checkpoint();
    assert_eq!(sub.depth(), 3);
    sub.checkpoint_revert(outer);
    assert_eq!(sub.depth(), 0);
    assert!(sub.load_account(account(1), &mut db));
}

#[test]
fn nonce_wraps_around() {
    let mut db = MemoryDb::new().with_account(account(1), holder(0, u64::MAX));
    let mut sub = SubRoutine::new(Table::new());
    sub.load_account(account(1), &mut db);
    assert_eq!(sub.inc_nonce(account(1)), u64::MAX);
    assert_eq!(sub.account(account(1)).info.nonce, 0);
}

#[test]
fn transfers_fail_without_moving_anything() {
    let mut full = holder(0, 0);
    full.balance = U256::max();
    let mut db = MemoryDb::new()
        .with_account(account(1), holder(10, 0))
        .with_account(account(2), full);
    let mut sub = SubRoutine::new(Table::new());
    assert_eq!(
        sub.transfer(account(1), account(3), U256::from_u64(11), &mut db),
        Err(ExitError::OutOfFund)
    );
    assert_eq!(
        sub.transfer(account(1), account(2), U256::from_u64(1), &mut db),
        Err(ExitError::OverflowPayment)
    );
    assert_eq!(sub.transfer(account(1), account(1), U256::from_u64(10), &mut db), Ok(()));
    assert_eq!(sub.account(account(1)).info.balance, U256::from_u64(10));
    assert_eq!(sub.transfer(account(1), account(3), U256::from_u64(10), &mut db), Ok(()));
    assert_eq!(sub.account(account(1)).info.balance, U256::zero());
    assert_eq!(sub.account(account(3)).info.balance, U256::from_u64(10));
}

#[test]
fn new_contract_must_not_be_a_precompile() {
    let mut db = MemoryDb::new();
    let mut sub = SubRoutine::new(Table::new());
    assert!(!sub.new_contract_acc(account(1), &vec![account(2), account(1)], &mut db));
    assert!(!sub.account(account(1)).created);
    assert!(sub.new_contract_acc(account(1), &vec![account(2)], &mut db));
    assert!(sub.account(account(1)).created);
}

#[test]
fn finalizing_hands_out_everything_loaded() {
    let mut db = MemoryDb::new().with_account(account(1), holder(10, 0));
    let mut sub = SubRoutine::new(Table::new());
    sub.load_account(account(1), &mut db);
    sub.load_account(account(2), &mut db);
    let state = sub.finalize();
    assert_eq!(state.get(&account(1)).unwrap().info.balance, U256::from_u64(10));
    assert!(state.contains_key(&account(2)));
    assert_eq!(sub.depth(), 0);
    assert!(sub.load_account(account(1), &mut db));
    let again = SubRoutine::new(state);
    assert_eq!(again.account(account(1)).info.balance, U256::from_u64(10));
}
