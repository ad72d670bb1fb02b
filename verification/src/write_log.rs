//! The write log: the storage modifications that the current block and the
//! current transaction have made but not yet committed.
use vstd::prelude::*;
use crate::storage::{gas_of_lens, key_bytes, key_gas, len_gas, Key};

verus! {

/// A modification of the value under one key.
#[derive(Debug, Clone, PartialEq, Eq)]
pub enum StorageModification {
    /// A new value.
    Write { value: Vec<u8> },
    /// The value is deleted.
    Delete,
    /// The validity predicate of a newly initialized account.
    InitAccount { vp: Vec<u8> },
    /// A value that lives only until the end of the transaction.
    Temp { value: Vec<u8> },
}

/// The value of a [`StorageModification`].
pub enum ModificationView {
    Write(Seq<u8>),
    Delete,
    InitAccount(Seq<u8>),
    Temp(Seq<u8>),
}

impl View for StorageModification {
    type V = ModificationView;

    open spec fn view(&self) -> ModificationView {
        match self {
            StorageModification::Write { value } => ModificationView::Write(value@),
            StorageModification::Delete => ModificationView::Delete,
            StorageModification::InitAccount { vp } => ModificationView::InitAccount(vp@),
            StorageModification::Temp { value } => ModificationView::Temp(value@),
        }
    }
}

/// The view of an optional borrowed modification.
pub open spec fn opt_mod_view(m: Option<&StorageModification>) -> Option<ModificationView> {
    match m {
        Some(x) => Some(x@),
        None => None,
    }
}

/// The write log of the current block and of the current transaction. In
/// each log, the first entry for a key is the modification of that key.
#[derive(Debug, Clone, PartialEq, Eq)]
pub struct WriteLog {
    /// Modifications made by the block's earlier transactions.
    pub block_write_log: Vec<(Key, StorageModification)>,
    /// Modifications made by the current transaction.
    pub tx_write_log: Vec<(Key, StorageModification)>,
}

/// The modification of `k` in a log: that of its first entry for `k`.
pub open spec fn log_lookup(es: Seq<(Key, StorageModification)>, k: Seq<char>) -> Option<ModificationView>
    decreases es.len(),
{
    if es.len() == 0 {
        None
    } else if es[0].0@ == k {
        Some(es[0].1@)
    } else {
        log_lookup(es.drop_first(), k)
    }
}

/// The modification of `k` in the write log: the transaction's, or when the
/// transaction did not touch `k`, the block's.
pub open spec fn write_log_entry(wl: WriteLog, k: Seq<char>) -> Option<ModificationView> {
    match log_lookup(wl.tx_write_log@, k) {
        Some(m) => Some(m),
        None => log_lookup(wl.block_write_log@, k),
    }
}

/// The gas of reading `k` from the write log: the key's bytes, and the
/// bytes of the value that the modification holds, if any.
pub open spec fn log_read_gas(m: Option<ModificationView>, k: Seq<char>) -> u64 {
    match m {
        Some(ModificationView::Write(v)) => gas_of_lens(key_bytes(k).len(), v.len()),
        Some(ModificationView::Delete) => key_gas(k),
        Some(ModificationView::InitAccount(vp)) => gas_of_lens(key_bytes(k).len(), vp.len()),
        Some(ModificationView::Temp(v)) => gas_of_lens(key_bytes(k).len(), v.len()),
        None => key_gas(k),
    }
}

/// The first modification of `key` in `es`.
fn find_modification<'a>(es: &'a Vec<(Key, StorageModification)>, key: &Key) -> (r: Option<&'a StorageModification>)
    ensures
        opt_mod_view(r) == log_lookup(es@, key@),
{
    let n = es.len();
    let mut i: usize = 0;
    assert(es@.skip(0) =~= es@);
    while i < n
        invariant
            n == es@.len(),
            i <= n,
            log_lookup(es@, key@) == log_lookup(es@.skip(i as int), key@),
        decreases n - i,
    {
        assert(es@.skip(i as int)[0] == es@[i as int]);
        if es[i].0.raw == key.raw {
            return Some(&es[i].1);
        }
        assert(es@.skip(i as int).drop_first() =~= es@.skip(i + 1));
        i = i + 1;
    }
    None
}

impl WriteLog {
    /// An empty write log.
    pub fn new() -> (wl: Self)
        ensures
            wl.block_write_log@.len() == 0,
            wl.tx_write_log@.len() == 0,
    {
        WriteLog { block_write_log: Vec::new(), tx_write_log: Vec::new() }
    }

    /// The modification of `key`, trying the transaction's log first and
    /// then the block's, with the gas that reading it costs.
    pub fn read(&self, key: &Key) -> (r: (Option<&StorageModification>, u64))
        ensures
            opt_mod_view(r.0) == write_log_entry(*self, key@),
            r.1 == log_read_gas(write_log_entry(*self, key@), key@),
    {
        let found = match find_modification(&self.tx_write_log, key) {
            Some(m) => Some(m),
            None => find_modification(&self.block_write_log, key),
        };
        let gas = match found {
            Some(StorageModification::Write { value }) => len_gas(key.len(), value.len()),
            Some(StorageModification::Delete) => key.len() as u64,
            Some(StorageModification::InitAccount { vp }) => len_gas(key.len(), vp.len()),
            Some(StorageModification::Temp { value }) => len_gas(key.len(), value.len()),
            None => key.len() as u64,
        };
        (found, gas)
    }
}

} // verus!
