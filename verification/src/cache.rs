//! The memory layer of the two-level audio cache: an LRU map with expiry,
//! bounded in entries. The disk layer (one file per key) is kept by the
//! caller, which reads and writes the files these functions name.
//! Times are nanoseconds on a monotonic clock.

use vstd::prelude::*;
use linked_hash_map::LinkedHashMap;

verus! {

/// `linked_hash_map::LinkedHashMap`, an insertion-ordered hash map.
#[verifier::external_type_specification]
#[verifier::external_body]
#[verifier::reject_recursive_types(K)]
#[verifier::reject_recursive_types(V)]
#[verifier::reject_recursive_types(S)]
pub struct ExLinkedHashMap<K, V, S>(LinkedHashMap<K, V, S>);

/// The entries of the memory layer, least recently used first: key, data and
/// expiry time.
pub uninterp spec fn lru_entries(m: LinkedHashMap<String, (Vec<u8>, u64)>) -> Seq<(Seq<char>, Seq<u8>, u64)>;

/// No key occurs twice.
pub open spec fn keys_distinct(s: Seq<(Seq<char>, Seq<u8>, u64)>) -> bool {
    forall|i: int, j: int| 0 <= i < j < s.len() ==> s[i].0 != s[j].0
}

/// The entries without the one for `k`.
pub open spec fn without_key(s: Seq<(Seq<char>, Seq<u8>, u64)>, k: Seq<char>) -> Seq<(Seq<char>, Seq<u8>, u64)>
    decreases s.len(),
{
    if s.len() == 0 {
        s
    } else {
        let rest = without_key(s.drop_last(), k);
        if s.last().0 == k {
            rest
        } else {
            rest.push(s.last())
        }
    }
}

/// Whether some entry has key `k`.
pub open spec fn has_entry(s: Seq<(Seq<char>, Seq<u8>, u64)>, k: Seq<char>) -> bool {
    exists|i: int| 0 <= i < s.len() && #[trigger] s[i].0 == k
}

/// The entry for `k` (meaningful when there is one).
pub open spec fn entry_of(s: Seq<(Seq<char>, Seq<u8>, u64)>, k: Seq<char>) -> (Seq<char>, Seq<u8>, u64) {
    s[choose|i: int| 0 <= i < s.len() && s[i].0 == k]
}

/// `LinkedHashMap::new()`: an empty map.
#[verifier::external_body]
fn lru_new() -> (r: LinkedHashMap<String, (Vec<u8>, u64)>)
    ensures
        lru_entries(r) == Seq::<(Seq<char>, Seq<u8>, u64)>::empty(),
{
    LinkedHashMap::new()
}

/// `LinkedHashMap::len`: the number of entries.
#[verifier::external_body]
fn lru_len(m: &LinkedHashMap<String, (Vec<u8>, u64)>) -> (r: usize)
    ensures
        r == lru_entries(*m).len(),
{
    m.len()
}

/// `LinkedHashMap::insert`: a new key goes to the back; an existing key gets
/// the new value and also moves to the back.
#[verifier::external_body]
fn lru_insert(m: &mut LinkedHashMap<String, (Vec<u8>, u64)>, k: String, data: Vec<u8>, expires_at: u64)
    ensures
        keys_distinct(lru_entries(*old(m))) ==> keys_distinct(lru_entries(*final(m))),
        lru_entries(*final(m)) == without_key(lru_entries(*old(m)), k@).push((k@, data@, expires_at)),
{
    m.insert(k, (data, expires_at));
}

/// `LinkedHashMap::get_refresh`: the value for `k`, if any, with its entry
/// moved to the back (the value is handed out as a copy).
#[verifier::external_body]
fn lru_get_refresh(m: &mut LinkedHashMap<String, (Vec<u8>, u64)>, k: &str) -> (r: Option<(Vec<u8>, u64)>)
    ensures
        keys_distinct(lru_entries(*old(m))) ==> keys_distinct(lru_entries(*final(m))),
        !has_entry(lru_entries(*old(m)), k@) ==> r is None && lru_entries(*final(m)) == lru_entries(*old(m)),
        has_entry(lru_entries(*old(m)), k@) ==> (r matches Some(v) && v.0@ == entry_of(lru_entries(*old(m)), k@).1
            && v.1 == entry_of(lru_entries(*old(m)), k@).2 && lru_entries(*final(m)) == without_key(
            lru_entries(*old(m)),
            k@,
        ).push(entry_of(lru_entries(*old(m)), k@))),
{
    match m.get_refresh(k) {
        Some(v) => Some((v.0.clone(), v.1)),
        None => None,
    }
}

/// `LinkedHashMap::remove`: the entry for `k` goes.
#[verifier::external_body]
fn lru_remove(m: &mut LinkedHashMap<String, (Vec<u8>, u64)>, k: &str)
    ensures
        keys_distinct(lru_entries(*old(m))) ==> keys_distinct(lru_entries(*final(m))),
        lru_entries(*final(m)) == without_key(lru_entries(*old(m)), k@),
{
    m.remove(k);
}

/// `LinkedHashMap::pop_front`: the least recently used entry goes (nothing
/// happens to an empty map).
#[verifier::external_body]
fn lru_pop_front(m: &mut LinkedHashMap<String, (Vec<u8>, u64)>)
    ensures
        keys_distinct(lru_entries(*old(m))) ==> keys_distinct(lru_entries(*final(m))),
        lru_entries(*old(m)).len() == 0 ==> lru_entries(*final(m)) == lru_entries(*old(m)),
        lru_entries(*old(m)).len() > 0 ==> lru_entries(*final(m)) == lru_entries(*old(m)).drop_first(),
{
    m.pop_front();
}

/// `LinkedHashMap::iter`, each entry handed out as its key and expiry time,
/// least recently used first.
#[verifier::external_body]
fn lru_expiries(m: &LinkedHashMap<String, (Vec<u8>, u64)>) -> (r: Vec<(String, u64)>)
    ensures
        r@.len() == lru_entries(*m).len(),
        forall|i: int| 0 <= i < r@.len() ==> (#[trigger] r@[i]).0@ == lru_entries(*m)[i].0 && r@[i].1
            == lru_entries(*m)[i].2,
{
    m.iter().map(|(k, v)| (k.clone(), v.1)).collect()
}

/// The memory layer of the cache.
pub struct Cache {
    memory: LinkedHashMap<String, (Vec<u8>, u64)>,
    default_ttl: u64,
    max_memory_entries: usize,
}

/// What a read through both layers gives: the value, if any, and whether
/// the disk copy has expired and is to be deleted.
#[derive(Debug, Clone, PartialEq, Eq)]
pub struct CacheRead {
    pub data: Option<Vec<u8>>,
    pub drop_file: bool,
}

impl Cache {
    /// The entries held in memory, least recently used first.
    pub closed spec fn entries(&self) -> Seq<(Seq<char>, Seq<u8>, u64)> {
        lru_entries(self.memory)
    }

    /// How long an entry lives.
    pub closed spec fn ttl(&self) -> u64 {
        self.default_ttl
    }

    /// The most entries kept in memory.
    pub closed spec fn limit(&self) -> usize {
        self.max_memory_entries
    }

    /// Keys are distinct and the memory holds no more than its limit.
    pub open spec fn wf(&self) -> bool {
        keys_distinct(self.entries()) && self.entries().len() <= self.limit()
    }

    /// An empty cache whose entries live `default_ttl` and of which at most
    /// `max_memory_entries` stay in memory.
    pub fn new(default_ttl: u64, max_memory_entries: usize) -> (r: Self)
        ensures
            r.wf(),
            r.entries() == Seq::<(Seq<char>, Seq<u8>, u64)>::empty(),
            r.ttl() == default_ttl,
            r.limit() == max_memory_entries,
    {
        Cache { memory: lru_new(), default_ttl, max_memory_entries }
    }

    /// How many entries are in memory.
    pub fn memory_len(&self) -> (r: usize)
        ensures
            r == self.entries().len(),
    {
        lru_len(&self.memory)
    }

    /// Drops least recently used entries until the limit holds.
    fn enforce_limit(&mut self)
        requires
            keys_distinct(old(self).entries()),
        ensures
            final(self).wf(),
            final(self).ttl() == old(self).ttl() && final(self).limit() == old(self).limit(),
            final(self).entries() == old(self).entries().skip(
                if old(self).entries().len() > old(self).limit() {
                    old(self).entries().len() - old(self).limit()
                } else {
                    0
                },
            ),
    {
        let ghost start = self.entries();
        let _n0 = lru_len(&self.memory);
        let mut dropped: usize = 0;
        while lru_len(&self.memory) > self.max_memory_entries
            invariant
                keys_distinct(self.entries()),
                self.entries() == start.skip(dropped as int),
                start.len() <= usize::MAX,
                dropped <= start.len(),
                dropped <= (if start.len() > self.limit() { start.len() - self.limit() } else { 0 }),
                self.ttl() == old(self).ttl() && self.limit() == old(self).limit(),
                start == old(self).entries(),
            decreases self.entries().len(),
        {
            lru_pop_front(&mut self.memory);
            assert(start.skip(dropped as int).drop_first() =~= start.skip(dropped + 1));
            dropped = dropped + 1;
        }
        assert(dropped == if start.len() > self.limit() { start.len() - self.limit() } else { 0 });
    }

    /// Looks `key` up in memory at `now`: its data while it has not expired.
    /// A found entry (expired or not) becomes the most recently used.
    pub fn lookup(&mut self, key: &str, now: u64) -> (r: Option<Vec<u8>>)
        requires
            old(self).wf(),
        ensures
            final(self).wf(),
            final(self).ttl() == old(self).ttl() && final(self).limit() == old(self).limit(),
            !has_entry(old(self).entries(), key@) ==> r is None && final(self).entries() == old(self).entries(),
            has_entry(old(self).entries(), key@) ==> {
                let e = entry_of(old(self).entries(), key@);
                &&& final(self).entries() == without_key(old(self).entries(), key@).push(e)
                &&& now < e.2 ==> (r matches Some(d) && d@ == e.1)
                &&& now >= e.2 ==> r is None
            },
    {
        proof {
            lemma_without_key_len(self.entries(), key@);
        }
        match lru_get_refresh(&mut self.memory, key) {
            Some(v) => {
                if now < v.1 {
                    Some(v.0)
                } else {
                    None
                }
            },
            None => None,
        }
    }

    /// Takes the disk layer's copy of `key`, written at `written_at`, at
    /// `now`: while it lives (until `written_at` plus the lifetime) it
    /// enters memory as the most recently used entry, with that expiry, and
    /// is returned; once expired it gives `None` (the caller deletes the
    /// file).
    pub fn take_from_disk(&mut self, key: &str, data: Vec<u8>, written_at: u64, now: u64) -> (r: Option<Vec<u8>>)
        requires
            old(self).wf(),
        ensures
            final(self).wf(),
            final(self).ttl() == old(self).ttl() && final(self).limit() == old(self).limit(),
            now >= disk_expiry(written_at, old(self).ttl()) ==> r is None && final(self).entries() == old(self).entries(),
            now < disk_expiry(written_at, old(self).ttl()) ==> (r matches Some(d) && d@ == data@) && final(self).entries()
                == admitted(old(self).entries(), key@, data@, disk_expiry(written_at, old(self).ttl()), old(self).limit()),
    {
        let expires_at: u64 = if written_at <= u64::MAX - self.default_ttl {
            written_at + self.default_ttl
        } else {
            u64::MAX
        };
        if now >= expires_at {
            return None;
        }
        let copy = data.clone();
        assert(copy@ =~= data@);
        self.remember(key, copy, expires_at);
        Some(data)
    }

    /// Reads `key` at `now` through both layers. A live memory entry is
    /// returned; an expired one leaves memory and the read gives nothing,
    /// with the disk copy to be dropped. Without a memory entry, `disk` (the
    /// disk layer's copy as the caller read it, with the time it was
    /// written; `None` when there is no readable file) is taken in as
    /// `take_from_disk` takes it.
    pub fn read_through(&mut self, key: &str, now: u64, disk: Option<(Vec<u8>, u64)>) -> (r: CacheRead)
        requires
            old(self).wf(),
        ensures
            final(self).wf(),
            final(self).ttl() == old(self).ttl() && final(self).limit() == old(self).limit(),
            bytes_view(r.data) == read_outcome(old(self).entries(), key@, now, old(self).ttl(), disk_view(disk)),
            r.drop_file == drops_disk_copy(old(self).entries(), key@, now, old(self).ttl(), disk_view(disk)),
            final(self).entries() == entries_after_read(
                old(self).entries(),
                key@,
                now,
                old(self).ttl(),
                old(self).limit(),
                disk_view(disk),
            ),
    {
        proof {
            lemma_without_key_len(self.entries(), key@);
        }
        match lru_get_refresh(&mut self.memory, key) {
            Some(v) => {
                if now < v.1 {
                    CacheRead { data: Some(v.0), drop_file: false }
                } else {
                    let ghost moved = self.entries();
                    self.evict(key);
                    proof {
                        let s0 = old(self).entries();
                        let w = without_key(s0, key@);
                        assert(moved == w.push(entry_of(s0, key@)));
                        assert(moved.drop_last() =~= w);
                        assert(without_key(moved, key@) == without_key(w, key@));
                        lemma_keys_distinct_without_key(s0, key@);
                        lemma_without_key_len(w, key@);
                        assert(!has_entry(w, key@));
                    }
                    CacheRead { data: None, drop_file: true }
                }
            },
            None => match disk {
                Some(copy) => {
                    let got = self.take_from_disk(key, copy.0, copy.1, now);
                    let drop_file = got.is_none();
                    CacheRead { data: got, drop_file }
                },
                None => CacheRead { data: None, drop_file: false },
            },
        }
    }

    /// Stores `data` under `key` at `now` (after the caller wrote the disk
    /// layer): it becomes the most recently used entry, expiring after the
    /// lifetime, and the oldest entries leave memory beyond the limit.
    pub fn store(&mut self, key: &str, data: Vec<u8>, now: u64)
        requires
            old(self).wf(),
            now + old(self).ttl() <= u64::MAX,
        ensures
            final(self).wf(),
            final(self).ttl() == old(self).ttl() && final(self).limit() == old(self).limit(),
            final(self).entries() == admitted(
                old(self).entries(),
                key@,
                data@,
                (now + old(self).ttl()) as u64,
                old(self).limit(),
            ),
    {
        let expires_at = now + self.default_ttl;
        self.remember(key, data, expires_at);
    }

    fn remember(&mut self, key: &str, data: Vec<u8>, expires_at: u64)
        requires
            old(self).wf(),
        ensures
            final(self).wf(),
            final(self).ttl() == old(self).ttl() && final(self).limit() == old(self).limit(),
            final(self).entries() == admitted(old(self).entries(), key@, data@, expires_at, old(self).limit()),
    {
        lru_insert(&mut self.memory, String::from_str(key), data, expires_at);
        self.enforce_limit();
    }

    /// Drops `key` from memory (the caller deletes the file).
    pub fn evict(&mut self, key: &str)
        requires
            old(self).wf(),
        ensures
            final(self).wf(),
            final(self).ttl() == old(self).ttl() && final(self).limit() == old(self).limit(),
            final(self).entries() == without_key(old(self).entries(), key@),
    {
        proof {
            lemma_without_key_len(self.entries(), key@);
        }
        lru_remove(&mut self.memory, key);
    }

    /// The keys whose entries have expired at `now`, least recently used
    /// first (the cleaner evicts them).
    pub fn expired_keys(&self, now: u64) -> (r: Vec<String>)
        ensures
            r@.map_values(|s: String| s@) == expired_in(self.entries(), now),
    {
        let all = lru_expiries(&self.memory);
        let ghost es = self.entries();
        let mut out: Vec<String> = Vec::new();
        let mut i: usize = 0;
        while i < all.len()
            invariant
                i <= all@.len(),
                all@.len() == es.len(),
                forall|j: int| 0 <= j < all@.len() ==> (#[trigger] all@[j]).0@ == es[j].0 && all@[j].1 == es[j].2,
                out@.map_values(|s: String| s@) == expired_in(es.take(i as int), now),
            decreases all@.len() - i,
        {
            assert(es.take(i + 1).drop_last() =~= es.take(i as int));
            if now >= all[i].1 {
                let ghost before = out@.map_values(|s: String| s@);
                out.push(all[i].0.clone());
                assert(out@.map_values(|s: String| s@) =~= before.push(es[i as int].0));
            }
            i = i + 1;
        }
        assert(es.take(es.len() as int) =~= es);
        out
    }
}

/// The entries after `key` is stored with `data` and expiry `expires_at`: at
/// the back, and the least recently used entries dropped beyond `limit`.
pub open spec fn admitted(
    s: Seq<(Seq<char>, Seq<u8>, u64)>,
    key: Seq<char>,
    data: Seq<u8>,
    expires_at: u64,
    limit: usize,
) -> Seq<(Seq<char>, Seq<u8>, u64)> {
    let t = without_key(s, key).push((key, data, expires_at));
    t.skip(if t.len() > limit { t.len() - limit } else { 0 })
}

/// An optional byte buffer by its contents.
pub open spec fn bytes_view(o: Option<Vec<u8>>) -> Option<Seq<u8>> {
    match o {
        Some(v) => Some(v@),
        None => None,
    }
}

/// The disk copy as the caller read it: its bytes and the time it was
/// written.
pub open spec fn disk_view(o: Option<(Vec<u8>, u64)>) -> Option<(Seq<u8>, u64)> {
    match o {
        Some(c) => Some((c.0@, c.1)),
        None => None,
    }
}

/// When a copy written at `written_at` expires: the lifetime later, or the
/// clock's last reading if that is past it.
pub open spec fn disk_expiry(written_at: u64, ttl: u64) -> u64 {
    if written_at + ttl <= u64::MAX {
        (written_at + ttl) as u64
    } else {
        u64::MAX
    }
}

/// What reading `key` at `now` gives, from memory entries `s`, lifetime
/// `ttl` and the disk layer's copy `disk`: the memory entry while it lives;
/// nothing once it has expired; without one, the disk copy while it lives.
pub open spec fn read_outcome(
    s: Seq<(Seq<char>, Seq<u8>, u64)>,
    key: Seq<char>,
    now: u64,
    ttl: u64,
    disk: Option<(Seq<u8>, u64)>,
) -> Option<Seq<u8>> {
    if has_entry(s, key) {
        if now < entry_of(s, key).2 {
            Some(entry_of(s, key).1)
        } else {
            None
        }
    } else {
        match disk {
            Some(c) => if now < disk_expiry(c.1, ttl) {
                Some(c.0)
            } else {
                None
            },
            None => None,
        }
    }
}

/// Whether that read finds the value expired, so that the disk copy goes.
pub open spec fn drops_disk_copy(
    s: Seq<(Seq<char>, Seq<u8>, u64)>,
    key: Seq<char>,
    now: u64,
    ttl: u64,
    disk: Option<(Seq<u8>, u64)>,
) -> bool {
    if has_entry(s, key) {
        now >= entry_of(s, key).2
    } else {
        match disk {
            Some(c) => now >= disk_expiry(c.1, ttl),
            None => false,
        }
    }
}

/// The memory entries after that read: a live entry for `key` becomes the
/// most recently used and an expired one goes; a live disk copy is stored
/// with the expiry of its write.
pub open spec fn entries_after_read(
    s: Seq<(Seq<char>, Seq<u8>, u64)>,
    key: Seq<char>,
    now: u64,
    ttl: u64,
    limit: usize,
    disk: Option<(Seq<u8>, u64)>,
) -> Seq<(Seq<char>, Seq<u8>, u64)> {
    if has_entry(s, key) {
        if now < entry_of(s, key).2 {
            without_key(s, key).push(entry_of(s, key))
        } else {
            without_key(s, key)
        }
    } else {
        match disk {
            Some(c) => if now < disk_expiry(c.1, ttl) {
                admitted(s, key, c.0, disk_expiry(c.1, ttl), limit)
            } else {
                s
            },
            None => s,
        }
    }
}

/// The keys of the entries that have expired at `now`, in order.
pub open spec fn expired_in(s: Seq<(Seq<char>, Seq<u8>, u64)>, now: u64) -> Seq<Seq<char>>
    decreases s.len(),
{
    if s.len() == 0 {
        Seq::empty()
    } else {
        let rest = expired_in(s.drop_last(), now);
        if now >= s.last().2 {
            rest.push(s.last().0)
        } else {
            rest
        }
    }
}

proof fn lemma_without_key_len(s: Seq<(Seq<char>, Seq<u8>, u64)>, k: Seq<char>)
    requires
        keys_distinct(s),
    ensures
        has_entry(s, k) ==> without_key(s, k).len() == s.len() - 1,
        !has_entry(s, k) ==> without_key(s, k) == s,
    decreases s.len(),
{
    if s.len() > 0 {
        let init = s.drop_last();
        assert(keys_distinct(init));
        lemma_without_key_len(init, k);
        if s.last().0 == k {
            assert forall|i: int| 0 <= i < init.len() implies init[i].0 != k by {
                assert(s[i].0 != s[s.len() - 1].0);
            }
            assert(!has_entry(init, k));
        } else {
            if has_entry(s, k) {
                let i = choose|i: int| 0 <= i < s.len() && s[i].0 == k;
                assert(i < s.len() - 1);
                assert(init[i].0 == k);
            }
            if !has_entry(s, k) {
                assert forall|i: int| 0 <= i < init.len() implies init[i].0 != k by {
                    assert(s[i].0 != k);
                }
            }
            assert(s =~= init.push(s.last()));
        }
    }
}

/// The file name of `key` in the disk layer: path separators become `_`,
/// NUL characters are dropped.
pub open spec fn sanitized(key: Seq<char>) -> Seq<char>
    decreases key.len(),
{
    if key.len() == 0 {
        key
    } else {
        let rest = sanitized(key.drop_last());
        let c = key.last();
        if c == '/' || c == '\\' {
            rest.push('_')
        } else if c == '\0' {
            rest
        } else {
            rest.push(c)
        }
    }
}

/// Normalizes a cache key for use as a file name.
pub fn sanitize_key(key: &str) -> (r: String)
    ensures
        r@ == sanitized(key@),
{
    let v = crate::text::chars_of(key);
    let mut out: Vec<char> = Vec::new();
    let mut i: usize = 0;
    while i < v.len()
        invariant
            i <= v@.len(),
            v@ == key@,
            out@ == sanitized(v@.take(i as int)),
        decreases v@.len() - i,
    {
        assert(v@.take(i + 1).drop_last() =~= v@.take(i as int));
        let c = v[i];
        if c == '/' || c == '\\' {
            out.push('_');
        } else if c != '\0' {
            out.push(c);
        }
        i = i + 1;
    }
    assert(v@.take(v@.len() as int) =~= v@);
    crate::text::string_from_chars(out.as_slice())
}

} // verus!

verus! {

proof fn lemma_without_key_absent(s: Seq<(Seq<char>, Seq<u8>, u64)>, k: Seq<char>)
    ensures
        forall|i: int| 0 <= i < without_key(s, k).len() ==> (#[trigger] without_key(s, k)[i]).0 != k,
    decreases s.len(),
{
    if s.len() > 0 {
        let init = s.drop_last();
        lemma_without_key_absent(init, k);
        let rest = without_key(init, k);
        if s.last().0 != k {
            assert forall|i: int| 0 <= i < without_key(s, k).len() implies (#[trigger] without_key(s, k)[i]).0 != k by {
                if i < rest.len() {
                    assert(without_key(s, k)[i] == rest[i]);
                }
            }
        }
    }
}

/// What is stored can be read back: after `key` is stored (with a memory
/// limit of at least one entry) the memory holds exactly one entry for it,
/// with the stored data and expiry, as its most recently used entry.
pub proof fn lemma_stored_entry_found(
    s: Seq<(Seq<char>, Seq<u8>, u64)>,
    key: Seq<char>,
    data: Seq<u8>,
    expires_at: u64,
    limit: usize,
)
    requires
        limit >= 1,
    ensures
        has_entry(admitted(s, key, data, expires_at, limit), key),
        entry_of(admitted(s, key, data, expires_at, limit), key) == (key, data, expires_at),
        admitted(s, key, data, expires_at, limit).last() == (key, data, expires_at),
{
    let w = without_key(s, key);
    let t = w.push((key, data, expires_at));
    let n: int = if t.len() > limit { t.len() - limit } else { 0 };
    let a = t.skip(n);
    assert(a == admitted(s, key, data, expires_at, limit));
    lemma_without_key_absent(s, key);
    assert(a.len() >= 1);
    assert(a[a.len() - 1] == t[t.len() - 1]);
    assert(a[a.len() - 1].0 == key);
    assert forall|i: int| 0 <= i < a.len() && a[i].0 == key implies i == a.len() - 1 by {
        if i < a.len() - 1 {
            assert(a[i] == t[i + n]);
            assert(t[i + n] == w[i + n]);
        }
    }
    let j = choose|i: int| 0 <= i < a.len() && a[i].0 == key;
    assert(j == a.len() - 1);
}

/// The memory holds for `key` either nothing or the entry written with
/// `data` and expiry `expires_at`.
pub open spec fn holds_written(s: Seq<(Seq<char>, Seq<u8>, u64)>, key: Seq<char>, data: Seq<u8>, expires_at: u64) -> bool {
    has_entry(s, key) ==> entry_of(s, key) == (key, data, expires_at)
}

/// A value written at `t0` reads back at `now` exactly while it lives:
/// `Some` of it before `t0` plus the lifetime `ttl` and nothing from then
/// on, whether its entry is still in memory or only its disk copy is left.
pub proof fn lemma_read_back(
    s: Seq<(Seq<char>, Seq<u8>, u64)>,
    key: Seq<char>,
    data: Seq<u8>,
    t0: u64,
    ttl: u64,
    now: u64,
)
    requires
        t0 + ttl <= u64::MAX,
        holds_written(s, key, data, (t0 + ttl) as u64),
    ensures
        read_outcome(s, key, now, ttl, Some((data, t0))) == (if now < t0 + ttl {
            Some(data)
        } else {
            None::<Seq<u8>>
        }),
        drops_disk_copy(s, key, now, ttl, Some((data, t0))) == (now >= t0 + ttl),
{
}

/// Storing `key` leaves the memory holding the written entry for it, and
/// storing another key keeps whatever `key` held.
pub proof fn lemma_store_holds_written(
    s: Seq<(Seq<char>, Seq<u8>, u64)>,
    key: Seq<char>,
    data: Seq<u8>,
    expires_at: u64,
    other: Seq<char>,
    other_data: Seq<u8>,
    other_expiry: u64,
    limit: usize,
)
    requires
        limit >= 1,
        keys_distinct(s),
    ensures
        holds_written(admitted(s, key, data, expires_at, limit), key, data, expires_at),
        other != key && holds_written(s, key, data, expires_at) ==> holds_written(
            admitted(s, other, other_data, other_expiry, limit),
            key,
            data,
            expires_at,
        ),
{
    lemma_stored_entry_found(s, key, data, expires_at, limit);
    if other != key && holds_written(s, key, data, expires_at) {
        let a = admitted(s, other, other_data, other_expiry, limit);
        if has_entry(a, key) {
            let w = without_key(s, other);
            let t = w.push((other, other_data, other_expiry));
            let n: int = if t.len() > limit { t.len() - limit } else { 0 };
            let i = choose|i: int| 0 <= i < a.len() && a[i].0 == key;
            assert(a[i] == t[i + n]);
            assert(i + n < w.len());
            lemma_without_key_from(s, other, i + n);
            let j = choose|j: int| 0 <= j < s.len() && s[j] == w[i + n];
            assert(s[j].0 == key);
            assert(has_entry(s, key));
            let js = choose|j: int| 0 <= j < s.len() && s[j].0 == key;
            assert(js == j);
            lemma_keys_distinct_without_key(s, other);
            lemma_keys_distinct_admit(w, (other, other_data, other_expiry), n);
            let ia = choose|i: int| 0 <= i < a.len() && a[i].0 == key;
            assert(ia == i);
        }
    }
}

proof fn lemma_without_key_from(s: Seq<(Seq<char>, Seq<u8>, u64)>, k: Seq<char>, i: int)
    requires
        0 <= i < without_key(s, k).len(),
    ensures
        exists|j: int| 0 <= j < s.len() && s[j] == without_key(s, k)[i],
    decreases s.len(),
{
    let init = s.drop_last();
    let rest = without_key(init, k);
    if s.last().0 == k || i < rest.len() {
        lemma_without_key_from(init, k, i);
        let j = choose|j: int| 0 <= j < init.len() && init[j] == rest[i];
        assert(s[j] == init[j]);
    } else {
        assert(s[s.len() - 1] == without_key(s, k)[i]);
    }
}

proof fn lemma_keys_distinct_without_key(s: Seq<(Seq<char>, Seq<u8>, u64)>, k: Seq<char>)
    requires
        keys_distinct(s),
    ensures
        keys_distinct(without_key(s, k)),
        forall|i: int| 0 <= i < without_key(s, k).len() ==> (#[trigger] without_key(s, k)[i]).0 != k,
    decreases s.len(),
{
    lemma_without_key_absent(s, k);
    if s.len() > 0 {
        let init = s.drop_last();
        assert(keys_distinct(init));
        lemma_keys_distinct_without_key(init, k);
        let rest = without_key(init, k);
        if s.last().0 != k {
            let w = without_key(s, k);
            assert forall|i: int, j: int| 0 <= i < j < w.len() implies w[i].0 != w[j].0 by {
                if j == w.len() - 1 {
                    assert(w[i] == rest[i]);
                    lemma_without_key_from(init, k, i);
                    let m = choose|m: int| 0 <= m < init.len() && init[m] == rest[i];
                    assert(s[m] == init[m]);
                    assert(s[m].0 != s[s.len() - 1].0);
                } else {
                    assert(w[i] == rest[i]);
                    assert(w[j] == rest[j]);
                }
            }
        }
    }
}

proof fn lemma_keys_distinct_admit(w: Seq<(Seq<char>, Seq<u8>, u64)>, e: (Seq<char>, Seq<u8>, u64), n: int)
    requires
        keys_distinct(w),
        forall|i: int| 0 <= i < w.len() ==> (#[trigger] w[i]).0 != e.0,
        0 <= n <= w.len() + 1,
    ensures
        keys_distinct(w.push(e).skip(n)),
{
    let t = w.push(e);
    let a = t.skip(n);
    assert forall|i: int, j: int| 0 <= i < j < a.len() implies a[i].0 != a[j].0 by {
        assert(a[i] == t[i + n]);
        assert(a[j] == t[j + n]);
        if j + n < w.len() {
            assert(t[i + n] == w[i + n]);
            assert(t[j + n] == w[j + n]);
        } else {
            assert(t[i + n] == w[i + n]);
        }
    }
}

} // verus!
