use anoma::gas::{GasError, VpGasMeter, TRANSACTION_GAS_LIMIT};
use anoma::native_vp::{eval_verdict, Ctx, RuntimeError, Tx};
use anoma::storage::{
    compare_bytes, has_prefix, BlockHash, BlockHeight, Epoch, Key, KeyOrder, Storage,
    BLOCK_HASH_LENGTH, CHAIN_ID_LENGTH, MIN_STORAGE_GAS,
};
use anoma::write_log::{StorageModification, WriteLog};

fn key(s: &str) -> Key {
    Key { raw: s.to_string() }
}

fn storage() -> Storage {
    let mut s = Storage::new(
        "anoma-test.000".to_string(),
        BlockHeight(12),
        BlockHash(vec![3u8; 32]),
        Epoch(4),
    );
    s.write(key("b/2"), vec![2]);
    s.write(key("a/1"), vec![1, 1]);
    s.write(key("b/1"), vec![21]);
    s.write(key("c"), vec![]);
    s.write(key("b/3"), vec![23, 23, 23]);
    s
}

fn tx() -> Tx {
    Tx { code: vec![], data: None }
}

#[test]
fn storage_read_after_write() {
    let mut s = storage();
    assert_eq!(s.read(&key("b/1")), (Some(vec![21]), 4));
    s.write(key("b/1"), vec![9, 9]);
    assert_eq!(s.read(&key("b/1")), (Some(vec![9, 9]), 5));
    assert_eq!(s.read(&key("a/1")), (Some(vec![1, 1]), 5));
    assert_eq!(s.read(&key("zz")), (None, 2));
    assert_eq!(s.has_key(&key("c")), (true, 1));
    assert_eq!(s.has_key(&key("d")), (false, 1));
}

#[test]
fn storage_block_data() {
    let s = storage();
    assert_eq!(s.get_chain_id(), ("anoma-test.000".to_string(), CHAIN_ID_LENGTH));
    assert_eq!(s.get_block_height(), (BlockHeight(12), MIN_STORAGE_GAS));
    assert_eq!(s.get_block_hash(), (BlockHash(vec![3u8; 32]), BLOCK_HASH_LENGTH));
    assert_eq!(s.get_block_epoch(), (Epoch(4), MIN_STORAGE_GAS));
}

#[test]
fn key_order_and_prefix() {
    assert_eq!(compare_bytes(b"a", b"b"), KeyOrder::Less);
    assert_eq!(compare_bytes(b"ab", b"a"), KeyOrder::Greater);
    assert_eq!(compare_bytes(b"", b""), KeyOrder::Equal);
    assert_eq!(compare_bytes(b"b/1", b"b/10"), KeyOrder::Less);
    assert!(has_prefix(b"b/", b"b/1"));
    assert!(!has_prefix(b"b/1", b"b/"));
    assert!(has_prefix(b"", b"x"));
    assert_eq!(key("é").len(), 2);
}

#[test]
fn prefix_iteration_is_sorted_and_exact() {
    let s = storage();
    let (mut it, gas) = s.iter_prefix(&key("b/"));
    assert_eq!(gas, 2);
    assert_eq!(it.next(), Some(("b/1".to_string(), vec![21], 4)));
    assert_eq!(it.next(), Some(("b/2".to_string(), vec![2], 4)));
    assert_eq!(it.next(), Some(("b/3".to_string(), vec![23, 23, 23], 6)));
    assert_eq!(it.next(), None);
    assert_eq!(it.next(), None);
}

#[test]
fn add_gas_charges_the_meter() {
    let s = storage();
    let wl = WriteLog::new();
    let t = tx();
    let mut ctx = Ctx::new(&s, &wl, &t, VpGasMeter::new(100));
    assert_eq!(ctx.add_gas(50), Ok(()));
    assert_eq!(ctx.gas_meter.current_gas, 50);
    assert_eq!(
        ctx.add_gas(TRANSACTION_GAS_LIMIT),
        Err(RuntimeError::OutOfGas(GasError::TransactionGasExceededError))
    );
}

#[test]
fn read_pre_ignores_the_write_log() {
    let s = storage();
    let wl = WriteLog {
        block_write_log: vec![],
        tx_write_log: vec![(key("a/1"), StorageModification::Write { value: vec![5] })],
    };
    let t = tx();
    let mut ctx = Ctx::new(&s, &wl, &t, VpGasMeter::new(0));
    assert_eq!(ctx.read_bytes_pre(&key("a/1")), Ok(Some(vec![1, 1])));
    assert_eq!(ctx.gas_meter.current_gas, 5);
    assert_eq!(ctx.has_key_pre(&key("a/1")), Ok(true));
    assert_eq!(ctx.gas_meter.current_gas, 8);
}

#[test]
fn read_post_prefers_the_transaction_then_the_block() {
    let s = storage();
    let wl = WriteLog {
        block_write_log: vec![
            (key("a/1"), StorageModification::Write { value: vec![6] }),
            (key("b/1"), StorageModification::Delete),
        ],
        tx_write_log: vec![(key("a/1"), StorageModification::Write { value: vec![5, 5, 5] })],
    };
    let t = tx();
    let mut ctx = Ctx::new(&s, &wl, &t, VpGasMeter::new(0));
    assert_eq!(ctx.read_bytes_post(&key("a/1")), Ok(Some(vec![5, 5, 5])));
    assert_eq!(ctx.gas_meter.current_gas, 6);
    assert_eq!(ctx.read_bytes_post(&key("b/1")), Ok(None));
    assert_eq!(ctx.gas_meter.current_gas, 9);
    assert_eq!(ctx.has_key_post(&key("b/1")), Ok(false));
    assert_eq!(ctx.read_bytes_post(&key("b/2")), Ok(Some(vec![2])));
    // log read (3) and storage read (3 + 1)
    assert_eq!(ctx.gas_meter.current_gas, 9 + 3 + 3 + 4);
    assert_eq!(ctx.read_bytes_post(&key("none")), Ok(None));
    assert_eq!(ctx.has_key_post(&key("none")), Ok(false));
    assert_eq!(ctx.has_key_post(&key("b/2")), Ok(true));
}

#[test]
fn init_account_reads_as_its_validity_predicate() {
    let s = storage();
    let wl = WriteLog {
        block_write_log: vec![],
        tx_write_log: vec![(key("acc/?"), StorageModification::InitAccount { vp: vec![0xaa] })],
    };
    let t = tx();
    let mut ctx = Ctx::new(&s, &wl, &t, VpGasMeter::new(0));
    assert_eq!(ctx.read_bytes_post(&key("acc/?")), Ok(Some(vec![0xaa])));
    assert_eq!(ctx.has_key_post(&key("acc/?")), Ok(true));
    assert_eq!(ctx.read_bytes_temp(&key("acc/?")), Err(RuntimeError::ReadPermanentValueError));
}

#[test]
fn temporary_values_are_only_read_as_temp() {
    let s = storage();
    let wl = WriteLog {
        block_write_log: vec![],
        tx_write_log: vec![(key("t"), StorageModification::Temp { value: vec![1, 2] })],
    };
    let t = tx();
    let mut ctx = Ctx::new(&s, &wl, &t, VpGasMeter::new(0));
    assert_eq!(ctx.read_bytes_post(&key("t")), Err(RuntimeError::ReadTemporaryValueError));
    assert_eq!(ctx.read_bytes_temp(&key("t")), Ok(Some(vec![1, 2])));
    assert_eq!(ctx.read_bytes_temp(&key("a/1")), Ok(None));
    assert_eq!(ctx.has_key_post(&key("t")), Ok(true));
    assert_eq!(ctx.gas_meter.current_gas, 3 + 3 + 3 + 3);
}

#[test]
fn reads_fail_once_out_of_gas() {
    let s = storage();
    let wl = WriteLog::new();
    let t = tx();
    let mut ctx = Ctx::new(&s, &wl, &t, VpGasMeter::new(TRANSACTION_GAS_LIMIT - 3));
    assert_eq!(ctx.read_bytes_pre(&key("a/1")), Err(RuntimeError::OutOfGas(GasError::TransactionGasExceededError)));
    assert_eq!(ctx.gas_meter.current_gas, 5);
    assert_eq!(ctx.has_key_pre(&key("c")), Err(RuntimeError::OutOfGas(GasError::TransactionGasExceededError)));
    assert_eq!(ctx.read_bytes_post(&key("c")), Err(RuntimeError::OutOfGas(GasError::TransactionGasExceededError)));
    assert_eq!(ctx.get_block_height(), Err(RuntimeError::OutOfGas(GasError::TransactionGasExceededError)));
}

#[test]
fn block_data_through_the_context() {
    let s = storage();
    let wl = WriteLog::new();
    let t = tx();
    let mut ctx = Ctx::new(&s, &wl, &t, VpGasMeter::new(0));
    assert_eq!(ctx.get_chain_id(), Ok("anoma-test.000".to_string()));
    assert_eq!(ctx.get_block_height(), Ok(BlockHeight(12)));
    assert_eq!(ctx.get_block_hash(), Ok(BlockHash(vec![3u8; 32])));
    assert_eq!(ctx.get_block_epoch(), Ok(Epoch(4)));
    assert_eq!(
        ctx.gas_meter.current_gas,
        CHAIN_ID_LENGTH + MIN_STORAGE_GAS + BLOCK_HASH_LENGTH + MIN_STORAGE_GAS
    );
}

#[test]
fn iteration_before_the_transaction() {
    let s = storage();
    let wl = WriteLog {
        block_write_log: vec![],
        tx_write_log: vec![(key("b/1"), StorageModification::Delete)],
    };
    let t = tx();
    let mut ctx = Ctx::new(&s, &wl, &t, VpGasMeter::new(0));
    let mut it = ctx.iter_prefix(&key("b")).unwrap();
    assert_eq!(ctx.gas_meter.current_gas, 1);
    assert_eq!(ctx.iter_pre_next(&mut it), Ok(Some(("b/1".to_string(), vec![21]))));
    assert_eq!(ctx.gas_meter.current_gas, 5);
    assert_eq!(ctx.iter_pre_next(&mut it), Ok(Some(("b/2".to_string(), vec![2]))));
    assert_eq!(ctx.iter_pre_next(&mut it), Ok(Some(("b/3".to_string(), vec![23, 23, 23]))));
    assert_eq!(ctx.iter_pre_next(&mut it), Ok(None));
    assert_eq!(ctx.gas_meter.current_gas, 5 + 4 + 6);
}

#[test]
fn iteration_after_the_transaction() {
    let s = storage();
    let wl = WriteLog {
        block_write_log: vec![(key("b/3"), StorageModification::Write { value: vec![33] })],
        tx_write_log: vec![
            (key("b/1"), StorageModification::Delete),
            (key("b/2"), StorageModification::InitAccount { vp: vec![0] }),
        ],
    };
    let t = tx();
    let mut ctx = Ctx::new(&s, &wl, &t, VpGasMeter::new(0));
    let mut it = ctx.iter_prefix(&key("b/")).unwrap();
    assert_eq!(ctx.iter_post_next(&mut it), Ok(Some(("b/3".to_string(), vec![33]))));
    // b/1: 4 + 3, b/2: 4 + 4, b/3: 6 + 4, after the prefix's 2
    assert_eq!(ctx.gas_meter.current_gas, 2 + 7 + 8 + 10);
    assert_eq!(ctx.iter_post_next(&mut it), Ok(None));
}

#[test]
fn iteration_after_the_transaction_refuses_temporary_values() {
    let s = storage();
    let wl = WriteLog {
        block_write_log: vec![],
        tx_write_log: vec![(key("c"), StorageModification::Temp { value: vec![1] })],
    };
    let t = tx();
    let mut ctx = Ctx::new(&s, &wl, &t, VpGasMeter::new(0));
    let mut it = ctx.iter_prefix(&key("c")).unwrap();
    assert_eq!(ctx.iter_post_next(&mut it), Err(RuntimeError::ReadTemporaryValueError));
    assert_eq!(ctx.iter_post_next(&mut it), Ok(None));
}

#[test]
fn untouched_keys_iterate_as_stored() {
    let s = storage();
    let wl = WriteLog::new();
    let t = tx();
    let mut ctx = Ctx::new(&s, &wl, &t, VpGasMeter::new(0));
    let mut it = ctx.iter_prefix(&key("")).unwrap();
    let mut keys = vec![];
    while let Ok(Some((k, _))) = ctx.iter_post_next(&mut it) {
        keys.push(k);
    }
    assert_eq!(keys, vec!["a/1", "b/1", "b/2", "b/3", "c"]);
}

#[test]
fn eval_verdict_counts_a_failed_run_as_rejection() {
    assert_eq!(eval_verdict::<String>(Ok(true)), Ok(true));
    assert_eq!(eval_verdict::<String>(Ok(false)), Ok(false));
    assert_eq!(eval_verdict::<String>(Err("trap".to_string())), Ok(false));
}

#[test]
fn storage_read_after_write_keeps_other_keys() {
    let mut s = storage();
    let before_other = s.read(&key("c"));
    s.write(key("new"), vec![4, 4]);
    assert_eq!(s.read(&key("new")), (Some(vec![4, 4]), 5));
    assert_eq!(s.read(&key("c")), before_other);
}
