//! The host context of a native validity predicate: the reads that a
//! validity predicate makes of the storage and the write log, each charged
//! to the predicate's gas meter.
use vstd::prelude::*;
use crate::borsh_de::opt_bytes_view;
use crate::gas::{charge_outcome, charged, GasError, VpGasMeter};
use crate::storage::{
    add_gas_saturating, copy_bytes, prefix_listing, entry_gas, gas_sum, key_bytes, key_gas, storage_read_gas,
    with_prefix, BlockHash, BlockHeight, Epoch, Key, PrefixIter, Storage, BLOCK_HASH_LENGTH,
    CHAIN_ID_LENGTH, MIN_STORAGE_GAS,
};
use crate::types::{Address, InternalAddress};
use crate::write_log::{log_lookup, log_read_gas, write_log_entry, ModificationView, StorageModification, WriteLog};

verus! {

/// A native validity predicate, such as those of the proof-of-stake and
/// IBC modules, implements its validation logic with this trait.
pub trait NativeVp {
    /// The address of this validity predicate.
    const ADDR: InternalAddress;

    /// Error type for the methods' results.
    type Error;

    /// Run the validity predicate.
    fn validate_tx(
        &self,
        tx_data: &[u8],
        keys_changed: &std::collections::BTreeSet<Key>,
        verifiers: &std::collections::BTreeSet<Address>,
    ) -> Result<bool, Self::Error>;
}

/// A transaction: its code and its optional data.
#[derive(Debug, Clone, PartialEq, Eq)]
pub struct Tx {
    pub code: Vec<u8>,
    pub data: Option<Vec<u8>>,
}

/// Why a host function of a validity predicate failed.
#[derive(Debug, Clone, Copy, PartialEq, Eq, Structural)]
pub enum RuntimeError {
    /// The gas meter refused a charge.
    OutOfGas(GasError),
    /// A storage read met a temporary value, which only `read_temp` reads.
    ReadTemporaryValueError,
    /// A read of temporary values met a permanent modification.
    ReadPermanentValueError,
}

/// Possible error in a native validity predicate's host function call.
pub type Error = RuntimeError;

/// The outcome of charging `gas` to the meter `m`, as a host function
/// reports it.
pub open spec fn charge(m: VpGasMeter, gas: u64) -> Result<(), RuntimeError> {
    match charge_outcome(m.initial_gas, m.current_gas, gas) {
        Ok(()) => Ok(()),
        Err(e) => Err(RuntimeError::OutOfGas(e)),
    }
}

/// Charges `gas` to `m`, and on success gives `value`; with the meter after.
pub open spec fn charged_value<T>(m: VpGasMeter, gas: u64, value: T) -> (Result<T, RuntimeError>, VpGasMeter) {
    (
        match charge(m, gas) {
            Ok(()) => Ok(value),
            Err(e) => Err(e),
        },
        charged(m, gas),
    )
}

/// What `read_bytes_pre` gives: the committed value of `k`, after charging
/// the storage read.
pub open spec fn spec_read_pre(m: VpGasMeter, kv: Map<Seq<char>, Seq<u8>>, k: Seq<char>) -> (
    Result<Option<Seq<u8>>, RuntimeError>,
    VpGasMeter,
) {
    charged_value(m, storage_read_gas(kv, k), kv.index_opt(k))
}

/// What `has_key_pre` gives: whether `k` is committed, after charging the
/// key's bytes.
pub open spec fn spec_has_key_pre(m: VpGasMeter, kv: Map<Seq<char>, Seq<u8>>, k: Seq<char>) -> (
    Result<bool, RuntimeError>,
    VpGasMeter,
) {
    charged_value(m, key_gas(k), kv.contains_key(k))
}

/// What `read_bytes_post` gives: the value of `k` after the transaction.
/// The write log's modification of `k` decides, once its read is charged:
/// a written value or an account's validity predicate is the value, a
/// deletion gives nothing, and a temporary value is refused. Only when the
/// write log has no modification of `k` is the committed value read.
pub open spec fn spec_read_post(
    m: VpGasMeter,
    kv: Map<Seq<char>, Seq<u8>>,
    wl: WriteLog,
    k: Seq<char>,
) -> (Result<Option<Seq<u8>>, RuntimeError>, VpGasMeter) {
    let entry = write_log_entry(wl, k);
    let m1 = charged(m, log_read_gas(entry, k));
    match charge(m, log_read_gas(entry, k)) {
        Err(e) => (Err(e), m1),
        Ok(()) => match entry {
            Some(ModificationView::Write(v)) => (Ok(Some(v)), m1),
            Some(ModificationView::Delete) => (Ok(None), m1),
            Some(ModificationView::InitAccount(vp)) => (Ok(Some(vp)), m1),
            Some(ModificationView::Temp(_)) => (Err(RuntimeError::ReadTemporaryValueError), m1),
            None => spec_read_pre(m1, kv, k),
        },
    }
}

/// What `read_bytes_temp` gives: the temporary value of `k` in the write
/// log, if any; a permanent modification of `k` is refused.
pub open spec fn spec_read_temp(m: VpGasMeter, wl: WriteLog, k: Seq<char>) -> (
    Result<Option<Seq<u8>>, RuntimeError>,
    VpGasMeter,
) {
    let entry = write_log_entry(wl, k);
    let m1 = charged(m, log_read_gas(entry, k));
    match charge(m, log_read_gas(entry, k)) {
        Err(e) => (Err(e), m1),
        Ok(()) => match entry {
            Some(ModificationView::Temp(v)) => (Ok(Some(v)), m1),
            None => (Ok(None), m1),
            _ => (Err(RuntimeError::ReadPermanentValueError), m1),
        },
    }
}

/// What `has_key_post` gives: whether `k` has a value after the
/// transaction. A written value, an account's validity predicate or a
/// temporary value is present, a deletion is not; without a modification of
/// `k`, the committed storage decides.
pub open spec fn spec_has_key_post(
    m: VpGasMeter,
    kv: Map<Seq<char>, Seq<u8>>,
    wl: WriteLog,
    k: Seq<char>,
) -> (Result<bool, RuntimeError>, VpGasMeter) {
    let entry = write_log_entry(wl, k);
    let m1 = charged(m, log_read_gas(entry, k));
    match charge(m, log_read_gas(entry, k)) {
        Err(e) => (Err(e), m1),
        Ok(()) => match entry {
            Some(ModificationView::Delete) => (Ok(false), m1),
            Some(_) => (Ok(true), m1),
            None => spec_has_key_pre(m1, kv, k),
        },
    }
}

/// What `iter_pre_next` gives for the entries still to come: the first one,
/// after charging its read.
pub open spec fn spec_iter_pre_next(m: VpGasMeter, rem: Seq<(Seq<char>, Seq<u8>)>) -> (
    Result<Option<(Seq<char>, Seq<u8>)>, RuntimeError>,
    VpGasMeter,
) {
    if rem.len() == 0 {
        (Ok(None), m)
    } else {
        charged_value(m, entry_gas(rem[0]), Some(rem[0]))
    }
}

/// What `iter_post_next` gives for the entries still to come, and how many
/// of them it takes. Each entry taken is charged its read from the storage
/// and from the write log. An entry whose key the write log has written
/// comes with the written value; one that the log deleted, or that is a new
/// account's validity predicate, is skipped; a temporary value is refused;
/// an entry that the log did not touch comes as stored.
pub open spec fn spec_iter_post_next(m: VpGasMeter, wl: WriteLog, rem: Seq<(Seq<char>, Seq<u8>)>) -> (
    Result<Option<(Seq<char>, Seq<u8>)>, RuntimeError>,
    VpGasMeter,
    nat,
)
    decreases rem.len(),
{
    if rem.len() == 0 {
        (Ok(None), m, 0)
    } else {
        let k = rem[0].0;
        let entry = write_log_entry(wl, k);
        let gas = gas_sum(entry_gas(rem[0]), log_read_gas(entry, k));
        let m1 = charged(m, gas);
        match charge(m, gas) {
            Err(e) => (Err(e), m1, 1),
            Ok(()) => match entry {
                Some(ModificationView::Write(v)) => (Ok(Some((k, v))), m1, 1),
                Some(ModificationView::Temp(_)) => (Err(RuntimeError::ReadTemporaryValueError), m1, 1),
                Some(_) => {
                    let r = spec_iter_post_next(m1, wl, rem.drop_first());
                    (r.0, r.1, r.2 + 1)
                },
                None => (Ok(Some(rem[0])), m1, 1),
            },
        }
    }
}

/// The view of a result that may hold a byte vector.
pub open spec fn bytes_result_view(r: Result<Option<Vec<u8>>, RuntimeError>) -> Result<Option<Seq<u8>>, RuntimeError> {
    match r {
        Ok(v) => Ok(opt_bytes_view(v)),
        Err(e) => Err(e),
    }
}

/// The view of a result that may hold a storage entry.
pub open spec fn entry_result_view(r: Result<Option<(String, Vec<u8>)>, RuntimeError>) -> Result<
    Option<(Seq<char>, Seq<u8>)>,
    RuntimeError,
> {
    match r {
        Ok(Some((k, v))) => Ok(Some((k@, v@))),
        Ok(None) => Ok(None),
        Err(e) => Err(e),
    }
}

/// What a validity predicate's evaluation of another validity predicate
/// answers, given the outcome of running it: the verdict of a run that
/// finished, and a rejection when the run failed.
pub fn eval_verdict<E>(run: Result<bool, E>) -> (res: Result<bool, RuntimeError>)
    ensures
        res == Ok::<bool, RuntimeError>(run matches Ok(true)),
{
    match run {
        Ok(accepted) => Ok(accepted),
        Err(_) => Ok(false),
    }
}

/// A validity predicate's host context: its gas meter, and read-only access
/// to the storage, the write log and the transaction.
pub struct Ctx<'a> {
    /// The validity predicate's gas meter.
    pub gas_meter: VpGasMeter,
    /// Read-only access to the storage.
    pub storage: &'a Storage,
    /// Read-only access to the write log.
    pub write_log: &'a WriteLog,
    /// The transaction, for signature verification.
    pub tx: &'a Tx,
}

/// Two contexts over the same storage, write log and transaction.
pub open spec fn same_host(a: Ctx, b: Ctx) -> bool {
    a.storage == b.storage && a.write_log == b.write_log && a.tx == b.tx
}

impl<'a> Ctx<'a> {
    /// Initialize a new context for a native validity predicate call.
    pub fn new(storage: &'a Storage, write_log: &'a WriteLog, tx: &'a Tx, gas_meter: VpGasMeter) -> (c: Self)
        ensures
            c.storage == storage,
            c.write_log == write_log,
            c.tx == tx,
            c.gas_meter == gas_meter,
    {
        Ctx { gas_meter, storage, write_log, tx }
    }

    /// Add a gas cost incurred in a validity predicate.
    pub fn add_gas(&mut self, used_gas: u64) -> (res: Result<(), RuntimeError>)
        ensures
            res == charge(old(self).gas_meter, used_gas),
            final(self).gas_meter == charged(old(self).gas_meter, used_gas),
            same_host(*final(self), *old(self)),
    {
        match self.gas_meter.add(used_gas) {
            Ok(()) => Ok(()),
            Err(e) => Err(RuntimeError::OutOfGas(e)),
        }
    }

    /// Storage read prior to the transaction's modifications.
    pub fn read_bytes_pre(&mut self, key: &Key) -> (res: Result<Option<Vec<u8>>, RuntimeError>)
        ensures
            (bytes_result_view(res), final(self).gas_meter)
                == spec_read_pre(old(self).gas_meter, old(self).storage.kv(), key@),
            res matches Ok(v) ==> opt_bytes_view(v) == old(self).storage.kv().index_opt(key@),
            same_host(*final(self), *old(self)),
    {
        proof {
            lemma_read_pre_gives_committed_value(self.gas_meter, self.storage.kv(), key@);
        }
        let storage: &'a Storage = self.storage;
        let (value, gas) = storage.read(key);
        match self.add_gas(gas) {
            Ok(()) => Ok(value),
            Err(e) => Err(e),
        }
    }

    /// Storage read with the transaction's modifications.
    pub fn read_bytes_post(&mut self, key: &Key) -> (res: Result<Option<Vec<u8>>, RuntimeError>)
        ensures
            (bytes_result_view(res), final(self).gas_meter)
                == spec_read_post(old(self).gas_meter, old(self).storage.kv(), *old(self).write_log, key@),
            same_host(*final(self), *old(self)),
    {
        let write_log: &'a WriteLog = self.write_log;
        let (log_val, gas) = write_log.read(key);
        match self.add_gas(gas) {
            Ok(()) => {},
            Err(e) => return Err(e),
        }
        match log_val {
            Some(StorageModification::Write { value }) => Ok(Some(copy_bytes(value))),
            Some(StorageModification::Delete) => Ok(None),
            Some(StorageModification::InitAccount { vp }) => Ok(Some(copy_bytes(vp))),
            Some(StorageModification::Temp { .. }) => Err(RuntimeError::ReadTemporaryValueError),
            None => self.read_bytes_pre(key),
        }
    }

    /// Read of a temporary value of the transaction.
    pub fn read_bytes_temp(&mut self, key: &Key) -> (res: Result<Option<Vec<u8>>, RuntimeError>)
        ensures
            (bytes_result_view(res), final(self).gas_meter)
                == spec_read_temp(old(self).gas_meter, *old(self).write_log, key@),
            res matches Ok(Some(v)) ==> write_log_entry(*old(self).write_log, key@) == Some(
                ModificationView::Temp(v@),
            ),
            res matches Ok(None) ==> write_log_entry(*old(self).write_log, key@) is None,
            same_host(*final(self), *old(self)),
    {
        proof {
            lemma_read_temp_reads_only_temporary_values(self.gas_meter, *self.write_log, key@);
        }
        let write_log: &'a WriteLog = self.write_log;
        let (log_val, gas) = write_log.read(key);
        match self.add_gas(gas) {
            Ok(()) => {},
            Err(e) => return Err(e),
        }
        match log_val {
            Some(StorageModification::Temp { value }) => Ok(Some(copy_bytes(value))),
            None => Ok(None),
            _ => Err(RuntimeError::ReadPermanentValueError),
        }
    }

    /// Storage `has_key` prior to the transaction's modifications.
    pub fn has_key_pre(&mut self, key: &Key) -> (res: Result<bool, RuntimeError>)
        ensures
            (res, final(self).gas_meter) == spec_has_key_pre(old(self).gas_meter, old(self).storage.kv(), key@),
            res matches Ok(b) ==> b == old(self).storage.kv().contains_key(key@),
            same_host(*final(self), *old(self)),
    {
        proof {
            lemma_read_pre_gives_committed_value(self.gas_meter, self.storage.kv(), key@);
        }
        let storage: &'a Storage = self.storage;
        let (present, gas) = storage.has_key(key);
        match self.add_gas(gas) {
            Ok(()) => Ok(present),
            Err(e) => Err(e),
        }
    }

    /// Storage `has_key` with the transaction's modifications.
    pub fn has_key_post(&mut self, key: &Key) -> (res: Result<bool, RuntimeError>)
        ensures
            (res, final(self).gas_meter)
                == spec_has_key_post(old(self).gas_meter, old(self).storage.kv(), *old(self).write_log, key@),
            same_host(*final(self), *old(self)),
    {
        let write_log: &'a WriteLog = self.write_log;
        let (log_val, gas) = write_log.read(key);
        match self.add_gas(gas) {
            Ok(()) => {},
            Err(e) => return Err(e),
        }
        match log_val {
            Some(StorageModification::Write { .. }) => Ok(true),
            Some(StorageModification::Delete) => Ok(false),
            Some(StorageModification::InitAccount { .. }) => Ok(true),
            Some(StorageModification::Temp { .. }) => Ok(true),
            None => self.has_key_pre(key),
        }
    }

    /// The chain ID.
    pub fn get_chain_id(&mut self) -> (res: Result<String, RuntimeError>)
        ensures
            (match res { Ok(s) => Ok(s@), Err(e) => Err(e) }, final(self).gas_meter)
                == charged_value(old(self).gas_meter, CHAIN_ID_LENGTH, old(self).storage.spec_chain_id()),
            same_host(*final(self), *old(self)),
    {
        let storage: &'a Storage = self.storage;
        let (chain_id, gas) = storage.get_chain_id();
        match self.add_gas(gas) {
            Ok(()) => Ok(chain_id),
            Err(e) => Err(e),
        }
    }

    /// The current block height.
    pub fn get_block_height(&mut self) -> (res: Result<BlockHeight, RuntimeError>)
        ensures
            (match res { Ok(h) => Ok(h.0), Err(e) => Err(e) }, final(self).gas_meter)
                == charged_value(old(self).gas_meter, MIN_STORAGE_GAS, old(self).storage.spec_block_height()),
            same_host(*final(self), *old(self)),
    {
        let storage: &'a Storage = self.storage;
        let (height, gas) = storage.get_block_height();
        match self.add_gas(gas) {
            Ok(()) => Ok(height),
            Err(e) => Err(e),
        }
    }

    /// The current block hash.
    pub fn get_block_hash(&mut self) -> (res: Result<BlockHash, RuntimeError>)
        ensures
            (match res { Ok(h) => Ok(h.0@), Err(e) => Err(e) }, final(self).gas_meter)
                == charged_value(old(self).gas_meter, BLOCK_HASH_LENGTH, old(self).storage.spec_block_hash()),
            same_host(*final(self), *old(self)),
    {
        let storage: &'a Storage = self.storage;
        let (hash, gas) = storage.get_block_hash();
        match self.add_gas(gas) {
            Ok(()) => Ok(hash),
            Err(e) => Err(e),
        }
    }

    /// The current epoch.
    pub fn get_block_epoch(&mut self) -> (res: Result<Epoch, RuntimeError>)
        ensures
            (match res { Ok(e) => Ok(e.0), Err(e) => Err(e) }, final(self).gas_meter)
                == charged_value(old(self).gas_meter, MIN_STORAGE_GAS, old(self).storage.spec_block_epoch()),
            same_host(*final(self), *old(self)),
    {
        let storage: &'a Storage = self.storage;
        let (epoch, gas) = storage.get_block_epoch();
        match self.add_gas(gas) {
            Ok(()) => Ok(epoch),
            Err(e) => Err(e),
        }
    }

    /// An iterator over the committed entries whose keys start with
    /// `prefix`, in ascending key order.
    pub fn iter_prefix(&mut self, prefix: &Key) -> (res: Result<PrefixIter, RuntimeError>)
        ensures
            (match res { Ok(it) => Ok(it.remaining()), Err(e) => Err(e) }, final(self).gas_meter)
                == charged_value(
                    old(self).gas_meter,
                    key_gas(prefix@),
                    with_prefix(old(self).storage.entries(), key_bytes(prefix@)),
                ),
            res matches Ok(it) ==> prefix_listing(old(self).storage.kv(), key_bytes(prefix@), it.remaining()),
            same_host(*final(self), *old(self)),
    {
        let storage: &'a Storage = self.storage;
        let (iter, gas) = storage.iter_prefix(prefix);
        match self.add_gas(gas) {
            Ok(()) => Ok(iter),
            Err(e) => Err(e),
        }
    }

    /// The next committed entry of a prefix iterator.
    pub fn iter_pre_next(&mut self, iter: &mut PrefixIter) -> (res: Result<Option<(String, Vec<u8>)>, RuntimeError>)
        ensures
            (entry_result_view(res), final(self).gas_meter)
                == spec_iter_pre_next(old(self).gas_meter, old(iter).remaining()),
            final(iter).remaining() == if old(iter).remaining().len() == 0 {
                old(iter).remaining()
            } else {
                old(iter).remaining().drop_first()
            },
            same_host(*final(self), *old(self)),
    {
        match iter.next() {
            Some((key, val, gas)) => match self.add_gas(gas) {
                Ok(()) => Ok(Some((key, val))),
                Err(e) => Err(e),
            },
            None => Ok(None),
        }
    }

    /// The next entry of a prefix iterator as the transaction leaves it:
    /// entries that the write log deleted are skipped, and written values
    /// replace the committed ones.
    pub fn iter_post_next(&mut self, iter: &mut PrefixIter) -> (res: Result<Option<(String, Vec<u8>)>, RuntimeError>)
        ensures
            ({
                let s = spec_iter_post_next(old(self).gas_meter, *old(self).write_log, old(iter).remaining());
                &&& entry_result_view(res) == s.0
                &&& final(self).gas_meter == s.1
                &&& final(iter).remaining() == old(iter).remaining().skip(s.2 as int)
            }),
            res matches Ok(Some((k, v))) ==> match write_log_entry(*old(self).write_log, k@) {
                Some(ModificationView::Write(w)) => v@ == w,
                None => old(iter).remaining().contains((k@, v@)),
                _ => false,
            },
            same_host(*final(self), *old(self)),
    {
        proof {
            lemma_iter_post_next_yields_values_after_tx(self.gas_meter, *self.write_log, iter.remaining());
            let r = spec_iter_post_next(self.gas_meter, *self.write_log, iter.remaining());
            match r.0 {
                Ok(Some((k, v))) => {
                    if write_log_entry(*self.write_log, k) is None {
                        assert(iter.remaining()[r.2 - 1] == (k, v));
                    }
                },
                _ => {},
            }
        }
        let write_log: &'a WriteLog = self.write_log;
        let ghost m0 = self.gas_meter;
        let ghost rem0 = iter.remaining();
        let ghost s0 = spec_iter_post_next(m0, *write_log, rem0);
        let ghost mut taken: nat = 0;
        assert(rem0.skip(0) =~= rem0);
        loop
            invariant
                write_log == self.write_log,
                same_host(*self, *old(self)),
                rem0 == old(iter).remaining(),
                s0 == spec_iter_post_next(old(self).gas_meter, *old(self).write_log, old(iter).remaining()),
                taken <= rem0.len(),
                iter.remaining() == rem0.skip(taken as int),
                ({
                    let s = spec_iter_post_next(self.gas_meter, *write_log, iter.remaining());
                    s0 == (s.0, s.1, s.2 + taken)
                }),
            decreases iter.remaining().len(),
        {
            let ghost rem = iter.remaining();
            let ghost m = self.gas_meter;
            let ghost s = spec_iter_post_next(m, *write_log, rem);
            let ghost t0 = taken;
            match iter.next() {
                None => {
                    return Ok(None);
                },
                Some((key, val, iter_gas)) => {
                    proof {
                        assert(rem.drop_first() =~= rem0.skip((t0 + 1) as int));
                        taken = t0 + 1;
                    }
                    let k = Key { raw: key.clone() };
                    let (log_val, log_gas) = write_log.read(&k);
                    let gas = add_gas_saturating(iter_gas, log_gas);
                    let ghost entry = write_log_entry(*write_log, rem[0].0);
                    assert(k@ == rem[0].0);
                    assert(gas == gas_sum(entry_gas(rem[0]), log_read_gas(entry, rem[0].0)));
                    match self.add_gas(gas) {
                        Ok(()) => {},
                        Err(e) => {
                            assert(s.0 == Err::<Option<(Seq<char>, Seq<u8>)>, RuntimeError>(e));
                            return Err(e);
                        },
                    }
                    match log_val {
                        Some(StorageModification::Write { value }) => {
                            return Ok(Some((key, copy_bytes(value))));
                        },
                        Some(StorageModification::Temp { .. }) => {
                            return Err(RuntimeError::ReadTemporaryValueError);
                        },
                        Some(_) => {},
                        None => {
                            return Ok(Some((key, val)));
                        },
                    }
                },
            }
        }
    }
}


/// Without a write-log modification of `k`, the value after the
/// transaction is the committed value: whenever both reads succeed, they
/// agree, whatever the gas meters they were charged to.
pub proof fn lemma_untouched_key_reads_committed_value(
    m_post: VpGasMeter,
    m_pre: VpGasMeter,
    kv: Map<Seq<char>, Seq<u8>>,
    wl: WriteLog,
    k: Seq<char>,
)
    requires
        write_log_entry(wl, k) is None,
        spec_read_post(m_post, kv, wl, k).0 is Ok,
        spec_read_pre(m_pre, kv, k).0 is Ok,
    ensures
        spec_read_post(m_post, kv, wl, k).0 == spec_read_pre(m_pre, kv, k).0,
{
}

/// A read after the transaction gives back what the transaction (or the
/// block) wrote: when the write log's modification of `k` is a written
/// value, a successful `read_bytes_post` returns exactly that value.
pub proof fn lemma_read_post_returns_written_value(
    m: VpGasMeter,
    kv: Map<Seq<char>, Seq<u8>>,
    wl: WriteLog,
    k: Seq<char>,
    v: Seq<u8>,
)
    requires
        write_log_entry(wl, k) == Some(ModificationView::Write(v)),
    ensures
        spec_read_post(m, kv, wl, k).0 is Ok ==> spec_read_post(m, kv, wl, k).0 == Ok::<
            Option<Seq<u8>>,
            RuntimeError,
        >(Some(v)),
        charge(m, log_read_gas(write_log_entry(wl, k), k)) is Ok ==> spec_read_post(m, kv, wl, k).0 is Ok,
{
}

/// A deleted key reads as absent after the transaction, whatever the
/// storage holds.
pub proof fn lemma_read_post_of_deleted_key(
    m: VpGasMeter,
    kv: Map<Seq<char>, Seq<u8>>,
    wl: WriteLog,
    k: Seq<char>,
)
    requires
        write_log_entry(wl, k) == Some(ModificationView::Delete),
    ensures
        spec_read_post(m, kv, wl, k).0 is Ok ==> spec_read_post(m, kv, wl, k).0 == Ok::<
            Option<Seq<u8>>,
            RuntimeError,
        >(None),
        spec_has_key_post(m, kv, wl, k).0 is Ok ==> spec_has_key_post(m, kv, wl, k).0 == Ok::<
            bool,
            RuntimeError,
        >(false),
{
}

/// `has_key_post` agrees with `read_bytes_post`: when both succeed, the key
/// is present exactly when the read gives a value.
pub proof fn lemma_has_key_post_agrees_with_read_post(
    m_read: VpGasMeter,
    m_has: VpGasMeter,
    kv: Map<Seq<char>, Seq<u8>>,
    wl: WriteLog,
    k: Seq<char>,
)
    requires
        spec_read_post(m_read, kv, wl, k).0 is Ok,
        spec_has_key_post(m_has, kv, wl, k).0 is Ok,
    ensures
        spec_has_key_post(m_has, kv, wl, k).0 == Ok::<bool, RuntimeError>(
            spec_read_post(m_read, kv, wl, k).0->Ok_0 is Some,
        ),
{
}

/// `has_key_pre` agrees with `read_bytes_pre`: when both succeed, the key is
/// present exactly when the read gives a value.
pub proof fn lemma_has_key_pre_agrees_with_read_pre(
    m_read: VpGasMeter,
    m_has: VpGasMeter,
    kv: Map<Seq<char>, Seq<u8>>,
    k: Seq<char>,
)
    requires
        spec_read_pre(m_read, kv, k).0 is Ok,
        spec_has_key_pre(m_has, kv, k).0 is Ok,
    ensures
        spec_has_key_pre(m_has, kv, k).0 == Ok::<bool, RuntimeError>(
            spec_read_pre(m_read, kv, k).0->Ok_0 is Some,
        ),
{
}

/// A temporary value is seen only by `read_bytes_temp`: `read_bytes_post`
/// refuses it, and `read_bytes_temp` returns it once its read is charged.
pub proof fn lemma_temporary_values_only_read_as_temp(
    m: VpGasMeter,
    kv: Map<Seq<char>, Seq<u8>>,
    wl: WriteLog,
    k: Seq<char>,
    v: Seq<u8>,
)
    requires
        write_log_entry(wl, k) == Some(ModificationView::Temp(v)),
    ensures
        spec_read_post(m, kv, wl, k).0 is Err,
        spec_read_temp(m, wl, k).0 is Ok ==> spec_read_temp(m, wl, k).0 == Ok::<
            Option<Seq<u8>>,
            RuntimeError,
        >(Some(v)),
        charge(m, log_read_gas(write_log_entry(wl, k), k)) is Ok ==> spec_read_temp(m, wl, k).0 is Ok,
{
}

/// Host reads never lower the gas used and never touch the gas that the
/// transaction used before the validity predicate.
pub proof fn lemma_reads_never_refund_gas(
    m: VpGasMeter,
    kv: Map<Seq<char>, Seq<u8>>,
    wl: WriteLog,
    k: Seq<char>,
)
    ensures
        spec_read_pre(m, kv, k).1.current_gas >= m.current_gas,
        spec_read_pre(m, kv, k).1.initial_gas == m.initial_gas,
        spec_read_post(m, kv, wl, k).1.current_gas >= m.current_gas,
        spec_read_post(m, kv, wl, k).1.initial_gas == m.initial_gas,
        spec_read_temp(m, wl, k).1.current_gas >= m.current_gas,
        spec_has_key_pre(m, kv, k).1.current_gas >= m.current_gas,
        spec_has_key_post(m, kv, wl, k).1.current_gas >= m.current_gas,
        spec_has_key_post(m, kv, wl, k).1.initial_gas == m.initial_gas,
{
}

/// Taking entries of a prefix iterator with the transaction's view never
/// lowers the gas used, and takes at least one entry unless none is left.
pub proof fn lemma_iter_post_next_never_refunds_gas(
    m: VpGasMeter,
    wl: WriteLog,
    rem: Seq<(Seq<char>, Seq<u8>)>,
)
    ensures
        spec_iter_post_next(m, wl, rem).1.current_gas >= m.current_gas,
        spec_iter_post_next(m, wl, rem).1.initial_gas == m.initial_gas,
        spec_iter_post_next(m, wl, rem).2 <= rem.len(),
        rem.len() > 0 ==> spec_iter_post_next(m, wl, rem).2 >= 1,
    decreases rem.len(),
{
    if rem.len() > 0 {
        let k = rem[0].0;
        let gas = gas_sum(entry_gas(rem[0]), log_read_gas(write_log_entry(wl, k), k));
        lemma_iter_post_next_never_refunds_gas(charged(m, gas), wl, rem.drop_first());
    }
}

/// Once the validity predicate has gone past the gas limit, every read that
/// charges gas fails for lack of gas.
pub proof fn lemma_reads_fail_once_out_of_gas(
    m: VpGasMeter,
    kv: Map<Seq<char>, Seq<u8>>,
    wl: WriteLog,
    k: Seq<char>,
)
    requires
        crate::gas::exhausted(m),
    ensures
        spec_read_pre(m, kv, k).0 is Err,
        spec_read_post(m, kv, wl, k).0 matches Err(RuntimeError::OutOfGas(_)),
        spec_read_temp(m, wl, k).0 matches Err(RuntimeError::OutOfGas(_)),
        spec_has_key_pre(m, kv, k).0 is Err,
        spec_has_key_post(m, kv, wl, k).0 matches Err(RuntimeError::OutOfGas(_)),
{
}

/// The write-log modification `e` of a key skips the key in an iteration
/// after the transaction: a deletion, or a new account's validity predicate.
pub open spec fn skipped_after_tx(e: Option<ModificationView>) -> bool {
    e matches Some(ModificationView::Delete) || e matches Some(ModificationView::InitAccount(_))
}

/// A successful read before the transaction gives exactly the committed
/// value of the key, and the read succeeds whenever its gas can be charged.
pub proof fn lemma_read_pre_gives_committed_value(m: VpGasMeter, kv: Map<Seq<char>, Seq<u8>>, k: Seq<char>)
    ensures
        spec_read_pre(m, kv, k).0 is Ok ==> spec_read_pre(m, kv, k).0 == Ok::<Option<Seq<u8>>, RuntimeError>(
            kv.index_opt(k),
        ),
        spec_has_key_pre(m, kv, k).0 is Ok ==> spec_has_key_pre(m, kv, k).0 == Ok::<bool, RuntimeError>(
            kv.contains_key(k),
        ),
        charge(m, storage_read_gas(kv, k)) is Ok ==> spec_read_pre(m, kv, k).0 is Ok,
{
}

/// A successful read after the transaction gives the key's value after the
/// transaction: the transaction's modification of the key if it has one,
/// else the block's; a written value or a new account's validity predicate
/// is the value, a deletion leaves none, and without a modification the
/// committed value stands.
pub proof fn lemma_read_post_gives_value_after_tx(
    m: VpGasMeter,
    kv: Map<Seq<char>, Seq<u8>>,
    wl: WriteLog,
    k: Seq<char>,
)
    ensures
        spec_read_post(m, kv, wl, k).0 matches Ok(v) ==> match log_lookup(wl.tx_write_log@, k) {
            Some(ModificationView::Write(w)) => v == Some(w),
            Some(ModificationView::InitAccount(vp)) => v == Some(vp),
            Some(ModificationView::Delete) => v is None,
            Some(ModificationView::Temp(_)) => false,
            None => match log_lookup(wl.block_write_log@, k) {
                Some(ModificationView::Write(w)) => v == Some(w),
                Some(ModificationView::InitAccount(vp)) => v == Some(vp),
                Some(ModificationView::Delete) => v is None,
                Some(ModificationView::Temp(_)) => false,
                None => v == kv.index_opt(k),
            },
        },
{
}

/// `read_bytes_temp` reads temporary values only: it gives `Some(v)` only
/// for a temporary value `v`, gives nothing only when the write log has no
/// modification of the key, and refuses every permanent modification once
/// its read is charged.
pub proof fn lemma_read_temp_reads_only_temporary_values(m: VpGasMeter, wl: WriteLog, k: Seq<char>)
    ensures
        spec_read_temp(m, wl, k).0 matches Ok(Some(v)) ==> write_log_entry(wl, k) == Some(
            ModificationView::Temp(v),
        ),
        spec_read_temp(m, wl, k).0 matches Ok(None) ==> write_log_entry(wl, k) is None,
        (write_log_entry(wl, k) matches Some(e) && !(e is Temp) && charge(
            m,
            log_read_gas(write_log_entry(wl, k), k),
        ) is Ok) ==> spec_read_temp(m, wl, k).0 == Err::<Option<Seq<u8>>, RuntimeError>(
            RuntimeError::ReadPermanentValueError,
        ),
        (write_log_entry(wl, k) matches Some(e) && !(e is Temp)) ==> spec_read_temp(m, wl, k).0 is Err,
{
}

/// An iteration after the transaction takes entries in order: every entry
/// it passes over is one that the write log deleted or that is a new
/// account's validity predicate; the entry it yields carries the value
/// after the transaction (the write log's written value, the transaction's
/// modification first, else the stored value); it ends only when every
/// entry was passed over, and it refuses a temporary value only for the
/// entry it stopped at.
pub proof fn lemma_iter_post_next_yields_values_after_tx(
    m: VpGasMeter,
    wl: WriteLog,
    rem: Seq<(Seq<char>, Seq<u8>)>,
)
    ensures
        ({
            let r = spec_iter_post_next(m, wl, rem);
            &&& r.2 <= rem.len()
            &&& forall|j: int| 0 <= j < r.2 - 1 ==> skipped_after_tx(
                write_log_entry(wl, #[trigger] rem[j].0),
            )
            &&& r.0 matches Ok(Some((k, v))) ==> {
                &&& r.2 >= 1
                &&& k == rem[r.2 - 1].0
                &&& match write_log_entry(wl, k) {
                    Some(ModificationView::Write(w)) => v == w,
                    None => v == rem[r.2 - 1].1,
                    _ => false,
                }
            }
            &&& r.0 matches Ok(None) ==> r.2 == rem.len() && forall|j: int| 0 <= j < rem.len()
                ==> skipped_after_tx(write_log_entry(wl, #[trigger] rem[j].0))
            &&& r.0 == Err::<Option<(Seq<char>, Seq<u8>)>, RuntimeError>(RuntimeError::ReadTemporaryValueError)
                ==> r.2 >= 1 && write_log_entry(wl, rem[r.2 - 1].0) is Some && write_log_entry(
                wl,
                rem[r.2 - 1].0,
            )->0 is Temp
        }),
    decreases rem.len(),
{
    if rem.len() > 0 {
        let k = rem[0].0;
        let entry = write_log_entry(wl, k);
        let gas = gas_sum(entry_gas(rem[0]), log_read_gas(entry, k));
        let m1 = charged(m, gas);
        let tail = rem.drop_first();
        lemma_iter_post_next_yields_values_after_tx(m1, wl, tail);
        let r = spec_iter_post_next(m, wl, rem);
        let rt = spec_iter_post_next(m1, wl, tail);
        if charge(m, gas) is Ok && skipped_after_tx(entry) {
            assert(r == (rt.0, rt.1, rt.2 + 1));
            assert forall|j: int| 0 <= j < r.2 - 1 implies skipped_after_tx(
                write_log_entry(wl, #[trigger] rem[j].0),
            ) by {
                if j > 0 {
                    assert(rem[j] == tail[j - 1]);
                }
            }
            if r.0 matches Ok(Some((k2, v2))) {
                assert(rem[r.2 - 1] == tail[rt.2 - 1]);
            }
            if r.0 matches Ok(None) {
                assert forall|j: int| 0 <= j < rem.len() implies skipped_after_tx(
                    write_log_entry(wl, #[trigger] rem[j].0),
                ) by {
                    if j > 0 {
                        assert(rem[j] == tail[j - 1]);
                    }
                }
            }
            if r.0 == Err::<Option<(Seq<char>, Seq<u8>)>, RuntimeError>(RuntimeError::ReadTemporaryValueError) {
                assert(rem[r.2 - 1] == tail[rt.2 - 1]);
            }
        }
    }
}

/// What an iteration after the transaction yields agrees with a read after
/// the transaction: when the iterated entries are stored ones, the value
/// yielded for a key is what `read_bytes_post` of that key gives.
pub proof fn lemma_iter_post_next_agrees_with_read_post(
    m: VpGasMeter,
    m_read: VpGasMeter,
    kv: Map<Seq<char>, Seq<u8>>,
    wl: WriteLog,
    rem: Seq<(Seq<char>, Seq<u8>)>,
    k: Seq<char>,
    v: Seq<u8>,
)
    requires
        forall|i: int| 0 <= i < rem.len() ==> kv.contains_key(#[trigger] rem[i].0) && kv[rem[i].0] == rem[i].1,
        spec_iter_post_next(m, wl, rem).0 == Ok::<Option<(Seq<char>, Seq<u8>)>, RuntimeError>(Some((k, v))),
        spec_read_post(m_read, kv, wl, k).0 is Ok,
    ensures
        spec_read_post(m_read, kv, wl, k).0 == Ok::<Option<Seq<u8>>, RuntimeError>(Some(v)),
{
    lemma_iter_post_next_yields_values_after_tx(m, wl, rem);
    let r = spec_iter_post_next(m, wl, rem);
    let e = rem[r.2 - 1];
    assert(kv.contains_key(e.0));
}
} // verus!
