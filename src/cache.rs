//! The refinement cache: a fixed number of slots, each holding one payload
//! under the hash of its key, evicted by age.

use vstd::prelude::*;
use std::collections::hash_map::DefaultHasher;
use std::hash::Hasher;
use vstd::string::StringSliceAdditionalSpecFns;
use vstd::std_specs::hash::DefaultHasherAdditionalSpecFns;

verus! {

/// Marks an initialized region.
pub const CACHE_MAGIC: u32 = 0x56454354;
/// Slots in the shared region.
pub const MAX_CACHE_ENTRIES: usize = 100000;
/// Bytes of one slot, header and payload together.
pub const ENTRY_SLOT_SIZE: usize = 7200;
/// Bytes of a slot header: two hashes, two times and a length.
pub const SLOT_HEADER_SIZE: usize = 40;
/// Bytes kept free in every slot.
pub const SAFETY_MARGIN: usize = 128;
/// The largest payload a slot takes: `ENTRY_SLOT_SIZE - SLOT_HEADER_SIZE - SAFETY_MARGIN`.
pub const MAX_DATA_SIZE: usize = 7032;
/// Entries not read for this many seconds (7 days) are evicted when the
/// cache is full.
pub const CACHE_TTL_SECS: u64 = 604800;

/// One occupied slot.
#[derive(Debug)]
pub struct CacheEntry {
    pub key_hash: u64,
    pub query_type_hash: u64,
    pub created_at: u64,
    pub last_accessed: u64,
    pub data_len: usize,
    pub data: String,
}

pub struct EntryModel {
    pub key_hash: u64,
    pub query_type_hash: u64,
    pub created_at: u64,
    pub last_accessed: u64,
    pub data: Seq<char>,
    pub data_len: nat,
}

impl View for CacheEntry {
    type V = EntryModel;

    open spec fn view(&self) -> EntryModel {
        EntryModel {
            key_hash: self.key_hash,
            query_type_hash: self.query_type_hash,
            created_at: self.created_at,
            last_accessed: self.last_accessed,
            data: self.data@,
            data_len: self.data_len as nat,
        }
    }
}

/// Why a value was not stored.
#[derive(Debug, Clone, Copy, PartialEq, Eq, Structural)]
pub enum CacheError {
    /// The payload exceeds `MAX_DATA_SIZE` bytes.
    ValueTooLarge,
    /// Every slot is taken, even after eviction.
    Full,
    /// The region was not initialized.
    InvalidHeader,
}

/// The cache region: a header (magic number, slot count) and the occupied
/// slots, oldest first. When `enabled` is false every read misses and every
/// write is a no-op.
#[derive(Debug)]
pub struct SharedCache {
    magic: u32,
    max_entries: usize,
    enabled: bool,
    entries: Vec<CacheEntry>,
}

pub struct CacheModel {
    pub magic: u32,
    pub max_entries: nat,
    pub enabled: bool,
    pub entries: Seq<EntryModel>,
}

impl View for SharedCache {
    type V = CacheModel;

    closed spec fn view(&self) -> CacheModel {
        CacheModel {
            magic: self.magic,
            max_entries: self.max_entries as nat,
            enabled: self.enabled,
            entries: self.entries@.map_values(|e: CacheEntry| e@),
        }
    }
}

/// Occupied slots never exceed the slot count, and no payload exceeds
/// `MAX_DATA_SIZE` bytes.
pub open spec fn cache_inv(c: CacheModel) -> bool {
    &&& c.entries.len() <= c.max_entries
    &&& forall|k: int| 0 <= k < c.entries.len() ==> (#[trigger] c.entries[k]).data_len <= MAX_DATA_SIZE
}

/// Position of the newest (last) entry stored under `key_hash`, if any.
pub open spec fn find_v(es: Seq<EntryModel>, key_hash: u64) -> Option<int>
    decreases es.len(),
{
    if es.len() == 0 {
        None
    } else if es.last().key_hash == key_hash {
        Some(es.len() - 1)
    } else {
        find_v(es.drop_last(), key_hash)
    }
}

/// What a read under `key_hash` returns.
pub open spec fn get_v(c: CacheModel, key_hash: u64) -> Option<Seq<char>> {
    if !c.enabled || c.magic != CACHE_MAGIC {
        None
    } else {
        match find_v(c.entries, key_hash) {
            Some(k) => Some(c.entries[k].data),
            None => None,
        }
    }
}

/// The entries that survive eviction at time `now`: those read at or after
/// `now - CACHE_TTL_SECS` (0 at the earliest), in their order.
pub open spec fn survivors_v(es: Seq<EntryModel>, cutoff: u64) -> Seq<EntryModel>
    decreases es.len(),
{
    if es.len() == 0 {
        Seq::empty()
    } else {
        let r = survivors_v(es.drop_last(), cutoff);
        if es.last().last_accessed >= cutoff {
            r.push(es.last())
        } else {
            r
        }
    }
}

pub open spec fn cutoff_v(now: u64) -> u64 {
    if now >= CACHE_TTL_SECS {
        (now - CACHE_TTL_SECS) as u64
    } else {
        0
    }
}

/// The entry that a write of `data` under the two hashes at `now` stores.
pub open spec fn new_entry_v(key_hash: u64, type_hash: u64, data: Seq<char>, len: nat, now: u64) -> EntryModel {
    EntryModel {
        key_hash,
        query_type_hash: type_hash,
        created_at: now,
        last_accessed: now,
        data,
        data_len: len,
    }
}

/// The state after a write, and its outcome.
pub open spec fn set_v(c: CacheModel, key_hash: u64, type_hash: u64, data: Seq<char>, len: nat, now: u64) -> (CacheModel, Result<(), CacheError>) {
    if !c.enabled {
        (c, Ok(()))
    } else if len > MAX_DATA_SIZE {
        (c, Err(CacheError::ValueTooLarge))
    } else if c.magic != CACHE_MAGIC {
        (c, Err(CacheError::InvalidHeader))
    } else {
        let es = if c.entries.len() >= c.max_entries {
            survivors_v(c.entries, cutoff_v(now))
        } else {
            c.entries
        };
        if es.len() >= c.max_entries {
            (CacheModel { entries: es, ..c }, Err(CacheError::Full))
        } else {
            (CacheModel { entries: es.push(new_entry_v(key_hash, type_hash, data, len, now)), ..c }, Ok(()))
        }
    }
}

proof fn lemma_survivors(es: Seq<EntryModel>, cutoff: u64)
    ensures
        survivors_v(es, cutoff).len() <= es.len(),
        forall|k: int| 0 <= k < survivors_v(es, cutoff).len() ==> exists|j: int| 0 <= j < es.len() && #[trigger] survivors_v(es, cutoff)[k] == es[j],
    decreases es.len(),
{
    if es.len() > 0 {
        lemma_survivors(es.drop_last(), cutoff);
        let p = es.drop_last();
        let r = survivors_v(p, cutoff);
        assert forall|k: int| 0 <= k < survivors_v(es, cutoff).len() implies exists|j: int| 0 <= j < es.len() && #[trigger] survivors_v(es, cutoff)[k] == es[j] by {
            if k < r.len() {
                let j = choose|j: int| 0 <= j < p.len() && r[k] == p[j];
                assert(es[j] == p[j]);
            } else {
                assert(survivors_v(es, cutoff)[k] == es[es.len() - 1]);
            }
        }
    }
}

fn copy_entry(e: &CacheEntry) -> (r: CacheEntry)
    ensures
        r@ == e@,
{
    CacheEntry {
        key_hash: e.key_hash,
        query_type_hash: e.query_type_hash,
        created_at: e.created_at,
        last_accessed: e.last_accessed,
        data_len: e.data_len,
        data: e.data.clone(),
    }
}

impl SharedCache {
    pub open spec fn wf(&self) -> bool {
        cache_inv(self@)
    }

    /// A freshly initialized region with `max_entries` slots, all free.
    pub fn new(max_entries: usize, enabled: bool) -> (r: SharedCache)
        ensures
            r.wf(),
            r@.magic == CACHE_MAGIC,
            r@.max_entries == max_entries,
            r@.enabled == enabled,
            r@.entries.len() == 0,
    {
        let r = SharedCache { magic: CACHE_MAGIC, max_entries, enabled, entries: Vec::new() };
        proof {
            assert(r@.entries =~= Seq::<EntryModel>::empty());
        }
        r
    }

    /// Number of occupied slots.
    pub fn len(&self) -> (r: usize)
        ensures
            r == self@.entries.len(),
    {
        self.entries.len()
    }

    /// The payload most recently stored under `key_hash`, if any; always
    /// `None` when the cache is disabled.
    pub fn get(&self, key_hash: u64) -> (r: Option<String>)
        ensures
            match r {
                Some(s) => get_v(self@, key_hash) == Some(s@),
                None => get_v(self@, key_hash) is None,
            },
    {
        if !self.enabled || self.magic != CACHE_MAGIC {
            return None;
        }
        let ghost es = self@.entries;
        let mut i: usize = self.entries.len();
        proof {
            assert(es.subrange(0, es.len() as int) =~= es);
        }
        while i > 0
            invariant
                es == self@.entries,
                self.enabled && self.magic == CACHE_MAGIC,
                i <= es.len(),
                find_v(es, key_hash) == find_v(es.subrange(0, i as int), key_hash),
            decreases i,
        {
            proof {
                let sub = es.subrange(0, i as int);
                assert(sub.drop_last() =~= es.subrange(0, i - 1));
                assert(sub.last() == es[i - 1]);
            }
            if self.entries[i - 1].key_hash == key_hash {
                return Some(self.entries[i - 1].data.clone());
            }
            i = i - 1;
        }
        None
    }

    fn keep_accessed_since(&mut self, cutoff: u64)
        requires
            old(self).wf(),
        ensures
            final(self).wf(),
            final(self)@ == (CacheModel { entries: survivors_v(old(self)@.entries, cutoff), ..old(self)@ }),
    {
        let ghost es = self@.entries;
        let mut kept: Vec<CacheEntry> = Vec::new();
        let mut i: usize = 0;
        let n = self.entries.len();
        proof {
            assert(kept@.map_values(|e: CacheEntry| e@) =~= survivors_v(es.subrange(0, 0), cutoff));
        }
        while i < n
            invariant
                n == es.len(),
                i <= n,
                es == self@.entries,
                kept@.map_values(|e: CacheEntry| e@) == survivors_v(es.subrange(0, i as int), cutoff),
            decreases n - i,
        {
            let e = copy_entry(&self.entries[i]);
            proof {
                let sub = es.subrange(0, i + 1);
                assert(sub.drop_last() =~= es.subrange(0, i as int));
                assert(sub.last() == es[i as int]);
            }
            if e.last_accessed >= cutoff {
                let ghost before = kept@;
                kept.push(e);
                proof {
                    assert(kept@.map_values(|x: CacheEntry| x@) =~= before.map_values(|x: CacheEntry| x@).push(es[i as int]));
                }
            }
            i = i + 1;
        }
        proof {
            assert(es.subrange(0, n as int) =~= es);
            lemma_survivors(es, cutoff);
        }
        self.entries = kept;
        proof {
            let s = survivors_v(es, cutoff);
            assert forall|k: int| 0 <= k < s.len() implies (#[trigger] s[k]).data_len <= MAX_DATA_SIZE by {
                let j = choose|j: int| 0 <= j < es.len() && s[k] == es[j];
            }
        }
    }

    /// Evicts the entries not read since `now - CACHE_TTL_SECS`, keeping
    /// the order of the rest.
    pub fn cleanup(&mut self, now: u64)
        requires
            old(self).wf(),
        ensures
            final(self).wf(),
            final(self)@ == (CacheModel { entries: survivors_v(old(self)@.entries, cutoff_v(now)), ..old(self)@ }),
    {
        let cutoff = if now >= CACHE_TTL_SECS { now - CACHE_TTL_SECS } else { 0 };
        self.keep_accessed_since(cutoff);
    }

    /// Stores `data` under the two hashes at time `now`. Disabled: does
    /// nothing and succeeds. A payload over `MAX_DATA_SIZE` bytes is refused
    /// whole, never cut. When every slot is taken, old entries are evicted
    /// first; if that frees none, the write fails.
    pub fn set(&mut self, key_hash: u64, query_type_hash: u64, data: &str, now: u64) -> (r: Result<(), CacheError>)
        requires
            old(self).wf(),
        ensures
            final(self).wf(),
            (final(self)@, r) == set_v(old(self)@, key_hash, query_type_hash, data@, data.len() as nat, now),
    {
        if !self.enabled {
            return Ok(());
        }
        if data.len() > MAX_DATA_SIZE {
            return Err(CacheError::ValueTooLarge);
        }
        if self.magic != CACHE_MAGIC {
            return Err(CacheError::InvalidHeader);
        }
        if self.entries.len() >= self.max_entries {
            self.cleanup(now);
        }
        if self.entries.len() >= self.max_entries {
            return Err(CacheError::Full);
        }
        let ghost before = self@.entries;
        let data_len = data.len();
        self.entries.push(CacheEntry { key_hash, query_type_hash, created_at: now, last_accessed: now, data_len, data: data.to_owned() });
        proof {
            assert(self@.entries =~= before.push(new_entry_v(key_hash, query_type_hash, data@, data.len() as nat, now)));
        }
        Ok(())
    }

    /// Empties the cache (`days_old` absent or not positive), or evicts the
    /// entries not read in the `days_old` days before `now`. Returns how
    /// many were removed.
    pub fn clear(&mut self, days_old: Option<i32>, now: u64) -> (r: usize)
        requires
            old(self).wf(),
        ensures
            final(self).wf(),
            r == old(self)@.entries.len() - final(self)@.entries.len(),
            final(self)@.magic == old(self)@.magic && final(self)@.max_entries == old(self)@.max_entries
                && final(self)@.enabled == old(self)@.enabled,
            match days_old {
                Some(d) if d > 0 => final(self)@.entries == survivors_v(old(self)@.entries, cutoff_days_v(now, d as nat)),
                _ => final(self)@.entries.len() == 0,
            },
    {
        let before = self.entries.len();
        let days: i32 = match days_old {
            Some(d) => d,
            None => 0,
        };
        if days <= 0 {
            self.entries = Vec::new();
            proof {
                assert(self@.entries =~= Seq::<EntryModel>::empty());
            }
            return before;
        }
        let span: u64 = days as u64 * 86400;
        let cutoff = if now >= span { now - span } else { 0 };
        self.keep_accessed_since(cutoff);
        proof {
            lemma_survivors(old(self)@.entries, cutoff);
        }
        before - self.entries.len()
    }
}

pub open spec fn cutoff_days_v(now: u64, days: nat) -> u64 {
    if now >= days * 86400 {
        (now - days * 86400) as u64
    } else {
        0
    }
}

/// A write that succeeds is what the next read of its key returns.
pub proof fn lemma_set_then_get(c: CacheModel, key_hash: u64, type_hash: u64, data: Seq<char>, len: nat, now: u64)
    requires
        cache_inv(c),
        c.enabled,
        set_v(c, key_hash, type_hash, data, len, now).1 is Ok,
    ensures
        get_v(set_v(c, key_hash, type_hash, data, len, now).0, key_hash) == Some(data),
{
    let es = if c.entries.len() >= c.max_entries {
        survivors_v(c.entries, cutoff_v(now))
    } else {
        c.entries
    };
    let es2 = es.push(new_entry_v(key_hash, type_hash, data, len, now));
    assert(es2.drop_last() =~= es);
}

/// A payload over `MAX_DATA_SIZE` bytes is refused and leaves every slot as
/// it was.
pub proof fn lemma_too_large_changes_nothing(c: CacheModel, key_hash: u64, type_hash: u64, data: Seq<char>, len: nat, now: u64)
    requires
        c.enabled,
        len > MAX_DATA_SIZE,
    ensures
        set_v(c, key_hash, type_hash, data, len, now) == (c, Err::<(), CacheError>(CacheError::ValueTooLarge)),
{
}

/// A full cache evicts exactly the entries not read within the TTL before
/// it stores.
pub proof fn lemma_full_evicts(c: CacheModel, key_hash: u64, type_hash: u64, data: Seq<char>, len: nat, now: u64)
    requires
        c.enabled,
        c.magic == CACHE_MAGIC,
        len <= MAX_DATA_SIZE,
        c.entries.len() >= c.max_entries,
    ensures
        set_v(c, key_hash, type_hash, data, len, now).0.entries.subrange(0, survivors_v(c.entries, cutoff_v(now)).len() as int)
            == survivors_v(c.entries, cutoff_v(now)),
{
    let s = survivors_v(c.entries, cutoff_v(now));
    assert(s.subrange(0, s.len() as int) =~= s);
    assert(s.push(new_entry_v(key_hash, type_hash, data, len, now)).subrange(0, s.len() as int) =~= s);
}

/// A disabled cache misses on every read and ignores every write.
pub proof fn lemma_disabled_is_inert(c: CacheModel, key_hash: u64, type_hash: u64, data: Seq<char>, len: nat, now: u64)
    requires
        !c.enabled,
    ensures
        get_v(c, key_hash) is None,
        set_v(c, key_hash, type_hash, data, len, now) == (c, Ok::<(), CacheError>(())),
{
}

/// Every payload under a hash is the answer computed for that hash.
pub open spec fn faithful(c: CacheModel, answer: spec_fn(u64) -> Seq<char>) -> bool {
    forall|k: int| 0 <= k < c.entries.len() ==> (#[trigger] c.entries[k]).data == answer(c.entries[k].key_hash)
}

/// The value a reader uses: the cached payload on a hit, else the answer
/// it computes.
pub open spec fn read_through(c: CacheModel, key_hash: u64, answer: spec_fn(u64) -> Seq<char>) -> Seq<char> {
    match get_v(c, key_hash) {
        Some(d) => d,
        None => answer(key_hash),
    }
}

pub proof fn lemma_find_in_range(es: Seq<EntryModel>, key_hash: u64)
    ensures
        match find_v(es, key_hash) {
            Some(k) => 0 <= k < es.len() && es[k].key_hash == key_hash,
            None => true,
        },
    decreases es.len(),
{
    if es.len() > 0 {
        lemma_find_in_range(es.drop_last(), key_hash);
    }
}

/// The cache is transparent: where every stored payload is the computed
/// answer (as it is when only computed answers are stored), a reader gets
/// the computed answer whether the cache is enabled or not, and storing a
/// computed answer keeps that so.
pub proof fn lemma_cache_transparency(c: CacheModel, key_hash: u64, type_hash: u64, len: nat, now: u64, answer: spec_fn(u64) -> Seq<char>)
    requires
        faithful(c, answer),
    ensures
        read_through(c, key_hash, answer) == answer(key_hash),
        read_through(CacheModel { enabled: !c.enabled, ..c }, key_hash, answer) == answer(key_hash),
        faithful(set_v(c, key_hash, type_hash, answer(key_hash), len, now).0, answer),
{
    lemma_find_in_range(c.entries, key_hash);
    let es = survivors_v(c.entries, cutoff_v(now));
    lemma_survivors(c.entries, cutoff_v(now));
    assert forall|k: int| 0 <= k < es.len() implies (#[trigger] es[k]).data == answer(es[k].key_hash) by {
        let j = choose|j: int| 0 <= j < c.entries.len() && es[k] == c.entries[j];
    }
    let n = set_v(c, key_hash, type_hash, answer(key_hash), len, now).0;
    assert forall|k: int| 0 <= k < n.entries.len() implies (#[trigger] n.entries[k]).data == answer(n.entries[k].key_hash) by {
        if c.enabled && len <= MAX_DATA_SIZE && c.magic == CACHE_MAGIC {
            let base = if c.entries.len() >= c.max_entries { es } else { c.entries };
            if k < base.len() {
                assert(n.entries[k] == base[k]);
            }
        }
    }
}

/// The hash under which `s` is stored: `DefaultHasher` over its bytes.
pub open spec fn hash_of(s: &str) -> u64 {
    DefaultHasher::spec_finish(seq![s.spec_bytes()])
}

/// Hash of a key or type tag.
pub fn hash_string(s: &str) -> (r: u64)
    ensures
        r == hash_of(s),
{
    let mut hasher = DefaultHasher::new();
    hasher.write(s.as_bytes());
    proof {
        assert(hasher@ =~= seq![s.spec_bytes()]);
    }
    hasher.finish()
}

/// The lower-case hexadecimal digit for `d < 16`.
pub open spec fn hex_digit(d: nat) -> char {
    if d == 0 {
        '0'
    } else if d == 1 {
        '1'
    } else if d == 2 {
        '2'
    } else if d == 3 {
        '3'
    } else if d == 4 {
        '4'
    } else if d == 5 {
        '5'
    } else if d == 6 {
        '6'
    } else if d == 7 {
        '7'
    } else if d == 8 {
        '8'
    } else if d == 9 {
        '9'
    } else if d == 10 {
        'a'
    } else if d == 11 {
        'b'
    } else if d == 12 {
        'c'
    } else if d == 13 {
        'd'
    } else if d == 14 {
        'e'
    } else {
        'f'
    }
}

/// The `n` lowest hexadecimal digits of `h`, most significant first.
pub open spec fn hex_str(h: nat, n: nat) -> Seq<char>
    decreases n,
{
    if n == 0 {
        Seq::empty()
    } else {
        hex_str(h / 16, (n - 1) as nat).push(hex_digit(h % 16))
    }
}

/// The hash of a query type followed by its parameters.
pub open spec fn key_hash_of(query_type: &str, params: Seq<&str>) -> u64 {
    DefaultHasher::spec_finish(seq![query_type.spec_bytes()] + params.map_values(|p: &str| p.spec_bytes()))
}

fn digit_str(d: u64) -> (r: &'static str)
    requires
        d < 16,
    ensures
        r@ == seq![hex_digit(d as nat)],
{
    match d {
        0 => {
            proof {
                reveal_strlit("0");
            }
            "0"
        },
        1 => {
            proof {
                reveal_strlit("1");
            }
            "1"
        },
        2 => {
            proof {
                reveal_strlit("2");
            }
            "2"
        },
        3 => {
            proof {
                reveal_strlit("3");
            }
            "3"
        },
        4 => {
            proof {
                reveal_strlit("4");
            }
            "4"
        },
        5 => {
            proof {
                reveal_strlit("5");
            }
            "5"
        },
        6 => {
            proof {
                reveal_strlit("6");
            }
            "6"
        },
        7 => {
            proof {
                reveal_strlit("7");
            }
            "7"
        },
        8 => {
            proof {
                reveal_strlit("8");
            }
            "8"
        },
        9 => {
            proof {
                reveal_strlit("9");
            }
            "9"
        },
        10 => {
            proof {
                reveal_strlit("a");
            }
            "a"
        },
        11 => {
            proof {
                reveal_strlit("b");
            }
            "b"
        },
        12 => {
            proof {
                reveal_strlit("c");
            }
            "c"
        },
        13 => {
            proof {
                reveal_strlit("d");
            }
            "d"
        },
        14 => {
            proof {
                reveal_strlit("e");
            }
            "e"
        },
        _ => {
            proof {
                reveal_strlit("f");
            }
            "f"
        },
    }
}

fn write_hex(out: &mut String, h: u64, n: usize)
    ensures
        final(out)@ == old(out)@ + hex_str(h as nat, n as nat),
    decreases n,
{
    if n > 0 {
        write_hex(out, h / 16, n - 1);
        out.append(digit_str(h % 16));
        proof {
            assert(final(out)@ =~= old(out)@ + hex_str(h as nat, n as nat));
        }
    } else {
        proof {
            assert(old(out)@ + Seq::<char>::empty() =~= old(out)@);
        }
    }
}

/// The hash of `query_type` followed by `params`.
pub fn hash_params(query_type: &str, params: &Vec<&str>) -> (r: u64)
    ensures
        r == key_hash_of(query_type, params@),
{
    let mut hasher = DefaultHasher::new();
    hasher.write(query_type.as_bytes());
    let mut i: usize = 0;
    while i < params.len()
        invariant
            i <= params@.len(),
            hasher@ == seq![query_type.spec_bytes()] + params@.subrange(0, i as int).map_values(|p: &str| p.spec_bytes()),
        decreases params@.len() - i,
    {
        hasher.write(params[i].as_bytes());
        proof {
            assert(params@.subrange(0, i + 1).map_values(|p: &str| p.spec_bytes()) =~= params@.subrange(0, i as int).map_values(|p: &str| p.spec_bytes()).push(params@[i as int].spec_bytes()));
        }
        i = i + 1;
    }
    proof {
        assert(params@.subrange(0, params@.len() as int) =~= params@);
    }
    hasher.finish()
}

/// `query_type`, an underscore, and the hash of the type and parameters in
/// sixteen hexadecimal digits.
pub fn generate_cache_key(query_type: &str, params: &Vec<&str>) -> (r: String)
    ensures
        r@ == query_type@ + "_"@ + hex_str(key_hash_of(query_type, params@) as nat, 16),
{
    let h = hash_params(query_type, params);
    let mut out = query_type.to_owned();
    out.append("_");
    write_hex(&mut out, h, 16);
    out
}

/// The payload stored under `cache_key`, if any.
pub fn get_cached_result(cache: &SharedCache, cache_key: &str) -> (r: Option<String>)
    ensures
        match r {
            Some(s) => get_v(cache@, hash_of(cache_key)) == Some(s@),
            None => get_v(cache@, hash_of(cache_key)) is None,
        },
{
    cache.get(hash_string(cache_key))
}

/// Stores `result_json` under `cache_key`, tagged with `query_type`, at
/// the current time.
pub fn store_cached_result(cache: &mut SharedCache, cache_key: &str, query_type: &str, result_json: &str) -> (r: Result<(), CacheError>)
    requires
        old(cache).wf(),
    ensures
        final(cache).wf(),
        exists|now: u64| (final(cache)@, r) == set_v(old(cache)@, hash_of(cache_key), hash_of(query_type), result_json@, result_json.len() as nat, now),
{
    let k = hash_string(cache_key);
    let t = hash_string(query_type);
    let now = current_timestamp();
    cache.set(k, t, result_json, now)
}

/// Relies on `std::time::SystemTime::now` and `duration_since(UNIX_EPOCH)`:
/// the current Unix time in seconds, 0 if the clock is before the epoch.
#[verifier::external_body]
pub fn current_timestamp() -> (r: u64) {
    std::time::SystemTime::now().duration_since(std::time::UNIX_EPOCH).map(|d| d.as_secs()).unwrap_or(0)
}

} // verus!
