//! The ledger's storage as a validity predicate sees it: the committed
//! key-value subspace with the current block's data, and the write log of
//! the modifications that the block and the transaction made so far. Every
//! read reports the gas that it costs.
use vstd::prelude::*;
use vstd::utf8::{encode_utf8, encode_utf8_decode_utf8};
use crate::borsh_de::opt_bytes_view;

verus! {

/// Gas of reading the chain ID.
pub const CHAIN_ID_LENGTH: u64 = 20u64;
/// Gas of reading the block hash.
pub const BLOCK_HASH_LENGTH: u64 = 32u64;
/// Gas of the cheapest storage reads.
pub const MIN_STORAGE_GAS: u64 = 1u64;

/// A storage key, in its textual form.
#[derive(Debug, Clone, PartialEq, Eq)]
pub struct Key {
    pub raw: String,
}

impl View for Key {
    type V = Seq<char>;

    open spec fn view(&self) -> Seq<char> {
        self.raw@
    }
}

/// The bytes of a key's text, by which keys are ordered and prefixed.
pub open spec fn key_bytes(k: Seq<char>) -> Seq<u8> {
    encode_utf8(k)
}

/// The gas of handling `a` bytes and then `b` bytes; it saturates at
/// `u64::MAX`, which no meter can reach anyway.
pub open spec fn gas_of_lens(a: nat, b: nat) -> u64 {
    if a + b <= u64::MAX {
        (a + b) as u64
    } else {
        u64::MAX
    }
}

/// The sum of two gas figures, saturating at `u64::MAX`.
pub open spec fn gas_sum(a: u64, b: u64) -> u64 {
    gas_of_lens(a as nat, b as nat)
}

/// The gas of handling `a` bytes and then `b` bytes.
pub(crate) fn len_gas(a: usize, b: usize) -> (g: u64)
    ensures
        g == gas_of_lens(a as nat, b as nat),
{
    (a as u64).saturating_add(b as u64)
}

/// The sum of two gas figures, saturating at `u64::MAX`.
pub(crate) fn add_gas_saturating(a: u64, b: u64) -> (g: u64)
    ensures
        g == gas_sum(a, b),
{
    a.saturating_add(b)
}

impl Key {
    /// The number of bytes of the key's text.
    pub fn len(&self) -> (n: usize)
        ensures
            n == key_bytes(self@).len(),
    {
        self.raw.as_str().as_bytes().len()
    }

    /// The bytes of the key's text.
    pub fn as_bytes(&self) -> (b: &[u8])
        ensures
            b@ == key_bytes(self@),
    {
        self.raw.as_str().as_bytes()
    }
}

/// Equal texts have equal bytes and the other way round.
pub proof fn lemma_key_bytes_injective(a: Seq<char>, b: Seq<char>)
    ensures
        key_bytes(a) == key_bytes(b) <==> a == b,
{
    encode_utf8_decode_utf8(a);
    encode_utf8_decode_utf8(b);
}

/// `a` and `b` agree before index `i`, and there `a` ends first or holds the
/// smaller byte.
pub open spec fn lt_at(a: Seq<u8>, b: Seq<u8>, i: int) -> bool {
    &&& 0 <= i <= a.len()
    &&& i <= b.len()
    &&& forall|j: int| 0 <= j < i ==> a[j] == b[j]
    &&& (i == a.len() && i < b.len()) || (i < a.len() && i < b.len() && a[i] < b[i])
}

/// Lexicographic order on byte strings, the order of the storage's keys.
pub open spec fn bytes_lt(a: Seq<u8>, b: Seq<u8>) -> bool {
    exists|i: int| #[trigger] lt_at(a, b, i)
}

/// The lexicographic order is a strict order.
pub proof fn lemma_bytes_lt_strict(a: Seq<u8>, b: Seq<u8>)
    ensures
        bytes_lt(a, b) ==> a != b,
        bytes_lt(a, b) ==> !bytes_lt(b, a),
{
    if bytes_lt(a, b) {
        let i = choose|i: int| #[trigger] lt_at(a, b, i);
        if bytes_lt(b, a) {
            let j = choose|j: int| #[trigger] lt_at(b, a, j);
            if i < j {
                assert(b[i] == a[i]);
            } else if j < i {
                assert(a[j] == b[j]);
            }
        }
    }
}

/// The lexicographic order is transitive.
pub proof fn lemma_bytes_lt_transitive(a: Seq<u8>, b: Seq<u8>, c: Seq<u8>)
    requires
        bytes_lt(a, b),
        bytes_lt(b, c),
    ensures
        bytes_lt(a, c),
{
    let i = choose|i: int| #[trigger] lt_at(a, b, i);
    let j = choose|j: int| #[trigger] lt_at(b, c, j);
    if i < j {
        assert(lt_at(a, c, i));
    } else if j < i {
        assert(lt_at(a, c, j));
    } else {
        assert(lt_at(a, c, i));
    }
}

/// The three ways two byte strings can compare.
#[derive(Debug, Clone, Copy, PartialEq, Eq, Structural)]
pub enum KeyOrder {
    Less,
    Equal,
    Greater,
}

/// Compares two byte strings lexicographically.
pub fn compare_bytes(a: &[u8], b: &[u8]) -> (r: KeyOrder)
    ensures
        r == KeyOrder::Less <==> bytes_lt(a@, b@),
        r == KeyOrder::Greater <==> bytes_lt(b@, a@),
        r == KeyOrder::Equal <==> a@ == b@,
{
    proof {
        lemma_bytes_lt_strict(a@, b@);
        lemma_bytes_lt_strict(b@, a@);
    }
    let mut i: usize = 0;
    while i < a.len() && i < b.len()
        invariant
            i <= a@.len(),
            i <= b@.len(),
            forall|j: int| 0 <= j < i ==> a@[j] == b@[j],
        decreases a@.len() - i,
    {
        if a[i] < b[i] {
            assert(lt_at(a@, b@, i as int));
            return KeyOrder::Less;
        }
        if b[i] < a[i] {
            assert(lt_at(b@, a@, i as int));
            return KeyOrder::Greater;
        }
        i = i + 1;
    }
    if a.len() < b.len() {
        assert(lt_at(a@, b@, i as int));
        KeyOrder::Less
    } else if b.len() < a.len() {
        assert(lt_at(b@, a@, i as int));
        KeyOrder::Greater
    } else {
        assert(a@ =~= b@);
        KeyOrder::Equal
    }
}

/// `p` is a prefix of `k`.
pub open spec fn is_prefix(p: Seq<u8>, k: Seq<u8>) -> bool {
    p.len() <= k.len() && k.take(p.len() as int) == p
}

/// Tells whether `p` is a prefix of `k`.
pub fn has_prefix(p: &[u8], k: &[u8]) -> (r: bool)
    ensures
        r == is_prefix(p@, k@),
{
    if p.len() > k.len() {
        return false;
    }
    let mut i: usize = 0;
    while i < p.len()
        invariant
            p@.len() <= k@.len(),
            i <= p@.len(),
            forall|j: int| 0 <= j < i ==> p@[j] == k@[j],
        decreases p@.len() - i,
    {
        if p[i] != k[i] {
            assert(k@.take(p@.len() as int)[i as int] != p@[i as int]);
            return false;
        }
        i = i + 1;
    }
    assert(k@.take(p@.len() as int) =~= p@);
    true
}

/// A block height.
#[derive(Debug, Clone, Copy, PartialEq, Eq, Structural)]
pub struct BlockHeight(pub u64);

/// An epoch.
#[derive(Debug, Clone, Copy, PartialEq, Eq, Structural)]
pub struct Epoch(pub u64);

/// A block hash.
#[derive(Debug, Clone, PartialEq, Eq)]
pub struct BlockHash(pub Vec<u8>);

/// The key and value of a stored entry, as values.
pub open spec fn entry_view(e: (Key, Vec<u8>)) -> (Seq<char>, Seq<u8>) {
    (e.0@, e.1@)
}

/// Entries whose keys strictly ascend in byte order.
pub open spec fn sorted_entries(es: Seq<(Seq<char>, Seq<u8>)>) -> bool {
    forall|i: int, j: int|
        0 <= i < j < es.len() ==> bytes_lt(key_bytes(#[trigger] es[i].0), key_bytes(#[trigger] es[j].0))
}

/// The key-value map that a sequence of entries with distinct keys holds.
pub open spec fn entries_map(es: Seq<(Seq<char>, Seq<u8>)>) -> Map<Seq<char>, Seq<u8>> {
    Map::new(
        |k: Seq<char>| exists|i: int| 0 <= i < es.len() && #[trigger] es[i].0 == k,
        |k: Seq<char>| es[choose|i: int| 0 <= i < es.len() && #[trigger] es[i].0 == k].1,
    )
}

/// In sorted entries, each key occurs once, so the map holds each entry.
pub proof fn lemma_entries_map_at(es: Seq<(Seq<char>, Seq<u8>)>, i: int)
    requires
        sorted_entries(es),
        0 <= i < es.len(),
    ensures
        entries_map(es).contains_key(es[i].0),
        entries_map(es)[es[i].0] == es[i].1,
{
    let k = es[i].0;
    assert(entries_map(es).contains_key(k));
    let j = choose|j: int| 0 <= j < es.len() && #[trigger] es[j].0 == k;
    if j != i {
        if j < i {
            lemma_bytes_lt_strict(key_bytes(es[j].0), key_bytes(es[i].0));
        } else {
            lemma_bytes_lt_strict(key_bytes(es[i].0), key_bytes(es[j].0));
        }
    }
}

/// The committed storage: the key-value subspace and the current block's
/// chain ID, height, hash and epoch.
pub struct Storage {
    subspace: Vec<(Key, Vec<u8>)>,
    chain_id: String,
    block_height: BlockHeight,
    block_hash: BlockHash,
    block_epoch: Epoch,
}

impl Storage {
    /// The stored entries, in ascending key order.
    pub closed spec fn entries(self) -> Seq<(Seq<char>, Seq<u8>)> {
        self.subspace@.map_values(|e: (Key, Vec<u8>)| entry_view(e))
    }

    /// The stored key-value map.
    pub open spec fn kv(self) -> Map<Seq<char>, Seq<u8>> {
        entries_map(self.entries())
    }

    pub closed spec fn spec_chain_id(self) -> Seq<char> {
        self.chain_id@
    }

    pub closed spec fn spec_block_height(self) -> u64 {
        self.block_height.0
    }

    pub closed spec fn spec_block_hash(self) -> Seq<u8> {
        self.block_hash.0@
    }

    pub closed spec fn spec_block_epoch(self) -> u64 {
        self.block_epoch.0
    }

    #[verifier::type_invariant]
    closed spec fn keys_ascend(self) -> bool {
        sorted_entries(self.entries())
    }

    /// An empty storage at the given block.
    pub fn new(chain_id: String, block_height: BlockHeight, block_hash: BlockHash, block_epoch: Epoch) -> (s: Self)
        ensures
            s.entries() == Seq::<(Seq<char>, Seq<u8>)>::empty(),
            s.kv() == Map::<Seq<char>, Seq<u8>>::empty(),
            s.spec_chain_id() == chain_id@,
            s.spec_block_height() == block_height.0,
            s.spec_block_hash() == block_hash.0@,
            s.spec_block_epoch() == block_epoch.0,
    {
        let s = Storage { subspace: Vec::new(), chain_id, block_height, block_hash, block_epoch };
        assert(s.entries() =~= Seq::<(Seq<char>, Seq<u8>)>::empty());
        assert(s.kv() =~= Map::<Seq<char>, Seq<u8>>::empty());
        s
    }
}


/// Where a key belongs among sorted entries: every entry before `i` has a
/// smaller key; when `eq`, the entry at `i` has the same key, and otherwise
/// any entry at `i` has a greater key.
fn find_slot(s: &Vec<(Key, Vec<u8>)>, key: &Key) -> (r: (usize, bool))
    ensures
        r.0 <= s@.len(),
        forall|j: int| 0 <= j < r.0 ==> bytes_lt(key_bytes(#[trigger] s@[j].0@), key_bytes(key@)),
        r.1 ==> r.0 < s@.len() && s@[r.0 as int].0@ == key@,
        !r.1 && r.0 < s@.len() ==> bytes_lt(key_bytes(key@), key_bytes(s@[r.0 as int].0@)),
{
    let n = s.len();
    let mut i: usize = 0;
    while i < n
        invariant
            n == s@.len(),
            i <= n,
            forall|j: int| 0 <= j < i ==> bytes_lt(key_bytes(#[trigger] s@[j].0@), key_bytes(key@)),
        decreases n - i,
    {
        match compare_bytes(s[i].0.as_bytes(), key.as_bytes()) {
            KeyOrder::Less => {
                i = i + 1;
            },
            KeyOrder::Equal => {
                proof {
                    lemma_key_bytes_injective(s@[i as int].0@, key@);
                }
                return (i, true);
            },
            KeyOrder::Greater => {
                return (i, false);
            },
        }
    }
    (i, false)
}

/// The stored entries whose key bytes start with `p`, in their order.
pub open spec fn with_prefix(es: Seq<(Seq<char>, Seq<u8>)>, p: Seq<u8>) -> Seq<(Seq<char>, Seq<u8>)>
    decreases es.len(),
{
    if es.len() == 0 {
        es
    } else {
        let rest = with_prefix(es.drop_last(), p);
        if is_prefix(p, key_bytes(es.last().0)) {
            rest.push(es.last())
        } else {
            rest
        }
    }
}

/// `rem` lists, in ascending key order and each once, exactly the entries
/// of `kv` whose key bytes start with `p`.
pub open spec fn prefix_listing(kv: Map<Seq<char>, Seq<u8>>, p: Seq<u8>, rem: Seq<(Seq<char>, Seq<u8>)>) -> bool {
    &&& sorted_entries(rem)
    &&& forall|i: int| 0 <= i < rem.len() ==> is_prefix(p, key_bytes(#[trigger] rem[i].0))
        && kv.contains_key(rem[i].0) && kv[rem[i].0] == rem[i].1
    &&& forall|k: Seq<char>| #[trigger] kv.contains_key(k) && is_prefix(p, key_bytes(k))
        ==> exists|i: int| 0 <= i < rem.len() && (#[trigger] rem[i]).0 == k
}

/// The gas of reading one stored entry.
pub open spec fn entry_gas(e: (Seq<char>, Seq<u8>)) -> u64 {
    gas_of_lens(key_bytes(e.0).len(), e.1.len())
}

/// The gas of a storage read of `k`: the key's bytes, and the value's bytes
/// when there is a value.
pub open spec fn storage_read_gas(kv: Map<Seq<char>, Seq<u8>>, k: Seq<char>) -> u64 {
    if kv.contains_key(k) {
        gas_of_lens(key_bytes(k).len(), kv[k].len())
    } else {
        key_bytes(k).len() as u64
    }
}

/// The gas of checking whether `k` is stored: the key's bytes.
pub open spec fn key_gas(k: Seq<char>) -> u64 {
    key_bytes(k).len() as u64
}

/// A copy of a byte vector.
pub(crate) fn copy_bytes(v: &Vec<u8>) -> (r: Vec<u8>)
    ensures
        r@ == v@,
{
    let mut r: Vec<u8> = Vec::new();
    let mut i: usize = 0;
    while i < v.len()
        invariant
            i <= v@.len(),
            r@ == v@.take(i as int),
        decreases v@.len() - i,
    {
        r.push(v[i]);
        i = i + 1;
        assert(r@ =~= v@.take(i as int));
    }
    assert(v@.take(i as int) =~= v@);
    r
}

impl Storage {
    /// Writes `value` under `key`, replacing the value stored there, if any.
    pub fn write(&mut self, key: Key, value: Vec<u8>)
        ensures
            final(self).kv() == old(self).kv().insert(key@, value@),
            final(self).spec_chain_id() == old(self).spec_chain_id(),
            final(self).spec_block_height() == old(self).spec_block_height(),
            final(self).spec_block_hash() == old(self).spec_block_hash(),
            final(self).spec_block_epoch() == old(self).spec_block_epoch(),
    {
        proof {
            use_type_invariant(&*self);
        }
        let ghost es = self.entries();
        let mut s: Vec<(Key, Vec<u8>)> = Vec::new();
        std::mem::swap(&mut s, &mut self.subspace);
        assert(s@.map_values(|e: (Key, Vec<u8>)| entry_view(e)) == es);
        let (i, eq) = find_slot(&s, &key);
        let ghost k = key@;
        let ghost v = value@;
        let ghost ins = (k, v);
        assert(forall|j: int| 0 <= j < i ==> bytes_lt(key_bytes(#[trigger] es[j].0), key_bytes(k)));
        if eq {
            assert(es[i as int] == entry_view(s@[i as int]));
            assert(es[i as int].0 == k);
            s.set(i, (key, value));
            proof {
                let es2 = s@.map_values(|e: (Key, Vec<u8>)| entry_view(e));
                assert(es2 =~= es.update(i as int, ins));
                assert forall|p: int, q: int| 0 <= p < q < es2.len() implies bytes_lt(
                    key_bytes(#[trigger] es2[p].0),
                    key_bytes(#[trigger] es2[q].0),
                ) by {
                    assert(es2[p].0 == es[p].0);
                    assert(es2[q].0 == es[q].0);
                }
                lemma_write_map(es, es2, i as int, k, v, true);
            }
        } else {
            s.insert(i, (key, value));
            proof {
                let es2 = s@.map_values(|e: (Key, Vec<u8>)| entry_view(e));
                assert(es2 =~= es.insert(i as int, ins));
                assert forall|p: int, q: int| 0 <= p < q < es2.len() implies bytes_lt(
                    key_bytes(#[trigger] es2[p].0),
                    key_bytes(#[trigger] es2[q].0),
                ) by {
                    if q < i {
                    } else if q == i {
                    } else if p < i {
                    } else if p == i {
                        if q - 1 > i {
                            lemma_bytes_lt_transitive(
                                key_bytes(k),
                                key_bytes(es[i as int].0),
                                key_bytes(es[q - 1].0),
                            );
                        }
                    } else {
                    }
                }
                assert forall|j: int| 0 <= j < es.len() implies (#[trigger] es[j]).0 != k by {
                    if j < i {
                        lemma_bytes_lt_strict(key_bytes(es[j].0), key_bytes(k));
                    } else {
                        if j > i {
                            lemma_bytes_lt_transitive(
                                key_bytes(k),
                                key_bytes(es[i as int].0),
                                key_bytes(es[j].0),
                            );
                        }
                        lemma_bytes_lt_strict(key_bytes(k), key_bytes(es[j].0));
                    }
                }
                lemma_write_map(es, es2, i as int, k, v, false);
            }
        }
        self.subspace = s;
    }

    /// Reads the value stored under `key`, with the gas that it costs.
    pub fn read(&self, key: &Key) -> (r: (Option<Vec<u8>>, u64))
        ensures
            opt_bytes_view(r.0) == self.kv().index_opt(key@),
            r.1 == storage_read_gas(self.kv(), key@),
    {
        proof {
            use_type_invariant(self);
        }
        let ghost es = self.entries();
        let n = self.subspace.len();
        let mut i: usize = 0;
        while i < n
            invariant
                n == self.subspace@.len(),
                es == self.entries(),
                sorted_entries(es),
                i <= n,
                forall|j: int| 0 <= j < i ==> (#[trigger] es[j]).0 != key@,
            decreases n - i,
        {
            assert(es[i as int] == entry_view(self.subspace@[i as int]));
            if self.subspace[i].0.raw == key.raw {
                proof {
                    lemma_entries_map_at(es, i as int);
                }
                let v = copy_bytes(&self.subspace[i].1);
                let g = len_gas(key.len(), v.len());
                return (Some(v), g);
            }
            i = i + 1;
        }
        assert(!self.kv().contains_key(key@));
        (None, key.len() as u64)
    }

    /// Tells whether a value is stored under `key`, with the gas that it
    /// costs.
    pub fn has_key(&self, key: &Key) -> (r: (bool, u64))
        ensures
            r.0 == self.kv().contains_key(key@),
            r.1 == key_gas(key@),
    {
        let ghost es = self.entries();
        let n = self.subspace.len();
        let mut i: usize = 0;
        while i < n
            invariant
                n == self.subspace@.len(),
                es == self.entries(),
                i <= n,
                forall|j: int| 0 <= j < i ==> (#[trigger] es[j]).0 != key@,
            decreases n - i,
        {
            assert(es[i as int] == entry_view(self.subspace@[i as int]));
            if self.subspace[i].0.raw == key.raw {
                assert(es[i as int].0 == key@);
                assert(self.kv().contains_key(key@));
                return (true, key.len() as u64);
            }
            i = i + 1;
        }
        assert(!self.kv().contains_key(key@));
        (false, key.len() as u64)
    }

    /// The chain ID, with the gas that reading it costs.
    pub fn get_chain_id(&self) -> (r: (String, u64))
        ensures
            r.0@ == self.spec_chain_id(),
            r.1 == CHAIN_ID_LENGTH,
    {
        (self.chain_id.clone(), CHAIN_ID_LENGTH)
    }

    /// The current block height, with the gas that reading it costs.
    pub fn get_block_height(&self) -> (r: (BlockHeight, u64))
        ensures
            r.0.0 == self.spec_block_height(),
            r.1 == MIN_STORAGE_GAS,
    {
        (self.block_height, MIN_STORAGE_GAS)
    }

    /// The current block hash, with the gas that reading it costs.
    pub fn get_block_hash(&self) -> (r: (BlockHash, u64))
        ensures
            r.0.0@ == self.spec_block_hash(),
            r.1 == BLOCK_HASH_LENGTH,
    {
        (BlockHash(copy_bytes(&self.block_hash.0)), BLOCK_HASH_LENGTH)
    }

    /// The current epoch, with the gas that reading it costs.
    pub fn get_block_epoch(&self) -> (r: (Epoch, u64))
        ensures
            r.0.0 == self.spec_block_epoch(),
            r.1 == MIN_STORAGE_GAS,
    {
        (self.block_epoch, MIN_STORAGE_GAS)
    }

    /// An iterator over the stored entries whose keys start with `prefix`,
    /// in ascending key order, with the gas that making it costs.
    pub fn iter_prefix(&self, prefix: &Key) -> (r: (PrefixIter, u64))
        ensures
            r.0.remaining() == with_prefix(self.entries(), key_bytes(prefix@)),
            prefix_listing(self.kv(), key_bytes(prefix@), r.0.remaining()),
            r.1 == key_gas(prefix@),
    {
        proof {
            use_type_invariant(self);
            lemma_prefix_listing(self.entries(), key_bytes(prefix@));
        }
        let ghost es = self.entries();
        let ghost p = key_bytes(prefix@);
        let n = self.subspace.len();
        let mut out: Vec<(String, Vec<u8>)> = Vec::new();
        let mut i: usize = 0;
        while i < n
            invariant
                n == self.subspace@.len(),
                es == self.entries(),
                p == key_bytes(prefix@),
                i <= n,
                out@.map_values(|e: (String, Vec<u8>)| (e.0@, e.1@)) == with_prefix(es.take(i as int), p),
            decreases n - i,
        {
            assert(es.take(i + 1).drop_last() =~= es.take(i as int));
            assert(es[i as int] == entry_view(self.subspace@[i as int]));
            if has_prefix(prefix.as_bytes(), self.subspace[i].0.as_bytes()) {
                let k = self.subspace[i].0.raw.clone();
                let v = copy_bytes(&self.subspace[i].1);
                out.push((k, v));
                assert(out@.map_values(|e: (String, Vec<u8>)| (e.0@, e.1@)) =~= with_prefix(es.take(i as int), p).push(es[i as int]));
            }
            i = i + 1;
        }
        assert(es.take(n as int) =~= es);
        let it = PrefixIter { entries: out, next: 0 };
        assert(it.remaining() =~= with_prefix(es, p));
        (it, prefix.len() as u64)
    }
}

/// Writing into sorted entries, at the slot of a key: the map gains the
/// written pair and keeps every other key's value.
proof fn lemma_write_map(
    es: Seq<(Seq<char>, Seq<u8>)>,
    es2: Seq<(Seq<char>, Seq<u8>)>,
    i: int,
    k: Seq<char>,
    v: Seq<u8>,
    replaced: bool,
)
    requires
        sorted_entries(es),
        sorted_entries(es2),
        0 <= i <= es.len(),
        replaced ==> i < es.len() && es[i].0 == k && es2 == es.update(i, (k, v)),
        !replaced ==> es2 == es.insert(i, (k, v)),
        !replaced ==> forall|j: int| 0 <= j < es.len() ==> (#[trigger] es[j]).0 != k,
    ensures
        entries_map(es2) == entries_map(es).insert(k, v),
{
    let m = entries_map(es);
    let m2 = entries_map(es2);
    lemma_entries_map_at(es2, i);
    assert forall|x: Seq<char>| m2.contains_key(x) <==> m.insert(k, v).contains_key(x) by {
        if m2.contains_key(x) && x != k {
            let j2 = choose|j: int| 0 <= j < es2.len() && #[trigger] es2[j].0 == x;
            if replaced {
                assert(es[j2].0 == x);
            } else if j2 < i {
                assert(es[j2].0 == x);
            } else {
                assert(es[j2 - 1].0 == x);
            }
        }
        if m.contains_key(x) && x != k {
            let j = choose|j: int| 0 <= j < es.len() && #[trigger] es[j].0 == x;
            if replaced || j < i {
                assert(es2[j].0 == x);
            } else {
                assert(es2[j + 1].0 == x);
            }
        }
    }
    assert forall|x: Seq<char>| #[trigger] m2.contains_key(x) implies m2[x] == m.insert(k, v)[x] by {
        if x != k {
            let j = choose|j: int| 0 <= j < es.len() && #[trigger] es[j].0 == x;
            lemma_entries_map_at(es, j);
            if replaced || j < i {
                assert(es2[j] == es[j]);
                lemma_entries_map_at(es2, j);
            } else {
                assert(es2[j + 1] == es[j]);
                lemma_entries_map_at(es2, j + 1);
            }
        }
    }
    assert(m2 =~= m.insert(k, v));
}

/// An iterator over some stored entries, as the storage gave them.
pub struct PrefixIter {
    entries: Vec<(String, Vec<u8>)>,
    next: usize,
}

impl PrefixIter {
    #[verifier::type_invariant]
    closed spec fn position_in_bounds(self) -> bool {
        self.next <= self.entries@.len()
    }

    /// The entries still to come.
    pub closed spec fn remaining(self) -> Seq<(Seq<char>, Seq<u8>)> {
        self.entries@.skip(self.next as int).map_values(|e: (String, Vec<u8>)| (e.0@, e.1@))
    }

    /// The next entry, with the gas that reading it costs.
    pub fn next(&mut self) -> (r: Option<(String, Vec<u8>, u64)>)
        ensures
            old(self).remaining().len() == 0 ==> r is None && final(self).remaining() == old(self).remaining(),
            old(self).remaining().len() > 0 ==> (r matches Some((k, v, g)) && (k@, v@) == old(self).remaining()[0]
                && g == entry_gas(old(self).remaining()[0])
                && final(self).remaining() == old(self).remaining().drop_first()),
    {
        proof {
            use_type_invariant(&*self);
        }
        if self.next >= self.entries.len() {
            assert(self.remaining().len() == 0);
            return None;
        }
        let i = self.next;
        let k = self.entries[i].0.clone();
        let v = copy_bytes(&self.entries[i].1);
        let g = len_gas(k.as_str().as_bytes().len(), v.len());
        self.next = i + 1;
        assert(self.remaining() =~= old(self).remaining().drop_first());
        Some((k, v, g))
    }
}

/// A prefix iteration yields exactly the stored entries whose keys start
/// with the prefix, each once, and in ascending key order.
pub proof fn lemma_with_prefix_exact(es: Seq<(Seq<char>, Seq<u8>)>, p: Seq<u8>)
    ensures
        forall|i: int| 0 <= i < with_prefix(es, p).len() ==> is_prefix(p, key_bytes(#[trigger] with_prefix(es, p)[i].0))
            && es.contains(with_prefix(es, p)[i]),
        forall|i: int| 0 <= i < es.len() && is_prefix(p, key_bytes(#[trigger] es[i].0))
            ==> with_prefix(es, p).contains(es[i]),
        sorted_entries(es) ==> sorted_entries(with_prefix(es, p)),
    decreases es.len(),
{
    if es.len() > 0 {
        let init = es.drop_last();
        lemma_with_prefix_exact(init, p);
        let rest = with_prefix(init, p);
        let wp = with_prefix(es, p);
        assert forall|i: int| 0 <= i < wp.len() implies is_prefix(p, key_bytes(#[trigger] wp[i].0))
            && es.contains(wp[i]) by {
            if i < rest.len() {
                assert(wp[i] == rest[i]);
                let j = choose|j: int| 0 <= j < init.len() && init[j] == rest[i];
                assert(es[j] == wp[i]);
            } else {
                assert(es[es.len() - 1] == wp[i]);
            }
        }
        assert forall|i: int| 0 <= i < es.len() && is_prefix(p, key_bytes(#[trigger] es[i].0))
            implies wp.contains(es[i]) by {
            if i < es.len() - 1 {
                assert(init[i] == es[i]);
                assert(rest.contains(init[i]));
                let j = choose|j: int| 0 <= j < rest.len() && rest[j] == init[i];
                assert(wp[j] == es[i]);
            } else {
                assert(wp[wp.len() - 1] == es[i]);
            }
        }
        if sorted_entries(es) {
            assert(sorted_entries(init));
            assert forall|a: int, b: int| 0 <= a < b < wp.len() implies bytes_lt(
                key_bytes(#[trigger] wp[a].0),
                key_bytes(#[trigger] wp[b].0),
            ) by {
                if b < rest.len() {
                    assert(wp[a] == rest[a]);
                    assert(wp[b] == rest[b]);
                } else {
                    assert(wp[a] == rest[a]);
                    let j = choose|j: int| 0 <= j < init.len() && init[j] == rest[a];
                    assert(es[j] == wp[a]);
                    assert(wp[b] == es[es.len() - 1]);
                }
            }
        }
    }
}

/// A read after a write gives back what the write wrote: when `after` is
/// the storage that [`Storage::write`] of `v` under `k` made of `before`,
/// [`Storage::read`] of `k` in `after` gives `v`, at the gas of `k`'s and
/// `v`'s bytes, and a read of any other key gives what it gave in `before`.
pub proof fn lemma_read_after_write(before: Storage, after: Storage, k: Key, v: Seq<u8>, other: Key)
    requires
        after.kv() == before.kv().insert(k@, v),
    ensures
        after.kv().index_opt(k@) == Some(v),
        storage_read_gas(after.kv(), k@) == gas_of_lens(key_bytes(k@).len(), v.len()),
        other@ != k@ ==> after.kv().index_opt(other@) == before.kv().index_opt(other@),
        other@ != k@ ==> storage_read_gas(after.kv(), other@) == storage_read_gas(before.kv(), other@),
{
}

/// The prefix iteration of sorted entries lists the prefixed part of their
/// map.
proof fn lemma_prefix_listing(es: Seq<(Seq<char>, Seq<u8>)>, p: Seq<u8>)
    requires
        sorted_entries(es),
    ensures
        prefix_listing(entries_map(es), p, with_prefix(es, p)),
{
    let wp = with_prefix(es, p);
    let kv = entries_map(es);
    lemma_with_prefix_exact(es, p);
    assert forall|i: int| 0 <= i < wp.len() implies is_prefix(p, key_bytes(#[trigger] wp[i].0))
        && kv.contains_key(wp[i].0) && kv[wp[i].0] == wp[i].1 by {
        assert(is_prefix(p, key_bytes(wp[i].0)));
        assert(es.contains(wp[i]));
        let j = choose|j: int| 0 <= j < es.len() && es[j] == wp[i];
        lemma_entries_map_at(es, j);
    }
    assert forall|k: Seq<char>| #[trigger] kv.contains_key(k) && is_prefix(p, key_bytes(k))
        implies exists|i: int| 0 <= i < wp.len() && (#[trigger] wp[i]).0 == k by {
        let j = choose|j: int| 0 <= j < es.len() && #[trigger] es[j].0 == k;
        assert(wp.contains(es[j]));
    }
}
} // verus!
