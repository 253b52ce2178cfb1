//! A small map keyed by provider name, kept as a vector of entries with
//! distinct keys (insertion order is kept, which makes scans deterministic).

use vstd::prelude::*;

verus! {

/// One keyed entry.
#[derive(Debug, Clone)]
pub struct Entry<T> {
    pub key: String,
    pub value: T,
}

/// Entries with pairwise distinct keys.
#[derive(Debug, Clone)]
pub struct Table<T> {
    entries: Vec<Entry<T>>,
}

/// The keys of a run of entries are pairwise distinct.
pub open spec fn distinct_keys<T>(s: Seq<Entry<T>>) -> bool {
    forall|i: int, j: int| 0 <= i < j < s.len() ==> s[i].key@ != s[j].key@
}

/// Whether some entry carries key `k`.
pub open spec fn has_key<T>(s: Seq<Entry<T>>, k: Seq<char>) -> bool {
    exists|i: int| 0 <= i < s.len() && s[i].key@ == k
}

/// The map that a run of entries with distinct keys stands for.
pub open spec fn entries_map<T>(s: Seq<Entry<T>>) -> Map<Seq<char>, T> {
    Map::new(
        |k: Seq<char>| has_key(s, k),
        |k: Seq<char>| s[choose|i: int| 0 <= i < s.len() && s[i].key@ == k].value,
    )
}

proof fn lemma_entries_map_at<T>(s: Seq<Entry<T>>, i: int)
    requires
        distinct_keys(s),
        0 <= i < s.len(),
    ensures
        entries_map(s).contains_key(s[i].key@),
        entries_map(s)[s[i].key@] == s[i].value,
{
    let k = s[i].key@;
    assert(has_key(s, k));
    let j = choose|j: int| 0 <= j < s.len() && s[j].key@ == k;
    if j != i {
        if j < i {
            assert(s[j].key@ != s[i].key@);
        } else {
            assert(s[i].key@ != s[j].key@);
        }
    }
}

/// The map view equals `m` when both have the same keys and agree on each entry.
proof fn lemma_entries_map_eq<T>(s: Seq<Entry<T>>, m: Map<Seq<char>, T>)
    requires
        distinct_keys(s),
        forall|k: Seq<char>| has_key(s, k) <==> #[trigger] m.contains_key(k),
        forall|i: int| 0 <= i < s.len() ==> m[#[trigger] s[i].key@] == s[i].value,
    ensures
        entries_map(s) == m,
{
    assert forall|k: Seq<char>| #[trigger] entries_map(s).contains_key(k) implies entries_map(s)[k]
        == m[k] by {
        let i = choose|i: int| 0 <= i < s.len() && s[i].key@ == k;
        lemma_entries_map_at(s, i);
    }
    assert(entries_map(s) =~= m);
}

impl<T> View for Table<T> {
    type V = Map<Seq<char>, T>;

    closed spec fn view(&self) -> Map<Seq<char>, T> {
        entries_map(self.entries@)
    }
}

impl<T> Table<T> {
    /// The table's well-formedness: distinct keys.
    pub closed spec fn wf(&self) -> bool {
        distinct_keys(self.entries@)
    }

    /// The keys in table order.
    pub closed spec fn key_seq(&self) -> Seq<Seq<char>> {
        self.entries@.map_values(|e: Entry<T>| e.key@)
    }

    /// The values in table order.
    pub closed spec fn value_seq(&self) -> Seq<T> {
        self.entries@.map_values(|e: Entry<T>| e.value)
    }

    /// The ordered keys and values describe the map view.
    pub proof fn lemma_seqs(&self)
        requires
            self.wf(),
        ensures
            self.key_seq().len() == self.value_seq().len(),
            forall|i: int, j: int|
                0 <= i < j < self.key_seq().len() ==> self.key_seq()[i] != self.key_seq()[j],
            forall|k: Seq<char>| #[trigger]
                self@.contains_key(k) <==> self.key_seq().contains(k),
            forall|i: int|
                0 <= i < self.key_seq().len() ==> self@[#[trigger] self.key_seq()[i]]
                    == self.value_seq()[i],
    {
        let s = self.entries@;
        assert forall|k: Seq<char>| #[trigger] self@.contains_key(k) <==> self.key_seq().contains(
            k,
        ) by {
            if self@.contains_key(k) {
                let i = choose|i: int| 0 <= i < s.len() && s[i].key@ == k;
                assert(self.key_seq()[i] == k);
            }
            if self.key_seq().contains(k) {
                let i = choose|i: int| 0 <= i < self.key_seq().len() && self.key_seq()[i] == k;
                assert(s[i].key@ == k);
            }
        }
        assert forall|i: int| 0 <= i < self.key_seq().len() implies self@[#[trigger] self.key_seq()[i]]
            == self.value_seq()[i] by {
            lemma_entries_map_at(s, i);
        }
    }

    /// An empty table.
    pub fn new() -> (r: Self)
        ensures
            r.wf(),
            r@ == Map::<Seq<char>, T>::empty(),
            r.key_seq().len() == 0,
    {
        let r = Table { entries: Vec::new() };
        assert(r@ =~= Map::<Seq<char>, T>::empty());
        assert(r.key_seq() =~= Seq::<Seq<char>>::empty());
        r
    }

    /// Number of entries.
    pub fn len(&self) -> (r: usize)
        requires
            self.wf(),
        ensures
            r == self.key_seq().len(),
    {
        self.entries.len()
    }

    /// Position of the entry with key `k`, if any.
    pub fn position(&self, k: &str) -> (r: Option<usize>)
        requires
            self.wf(),
        ensures
            r is None <==> !self@.contains_key(k@),
            r matches Some(i) ==> i < self.key_seq().len() && self.key_seq()[i as int] == k@,
    {
        let mut i: usize = 0;
        while i < self.entries.len()
            invariant
                i <= self.entries@.len(),
                distinct_keys(self.entries@),
                forall|j: int| 0 <= j < i ==> self.entries@[j].key@ != k@,
            decreases self.entries@.len() - i,
        {
            if crate::text::str_equals(self.entries[i].key.as_str(), k) {
                proof {
                    lemma_entries_map_at(self.entries@, i as int);
                }
                return Some(i);
            }
            i = i + 1;
        }
        None
    }

    /// The key at position `i`.
    pub fn key_at(&self, i: usize) -> (r: &String)
        requires
            self.wf(),
            i < self.key_seq().len(),
        ensures
            r@ == self.key_seq()[i as int],
    {
        &self.entries[i].key
    }

    /// The value at position `i`.
    pub fn value_at(&self, i: usize) -> (r: &T)
        requires
            self.wf(),
            i < self.key_seq().len(),
        ensures
            *r == self.value_seq()[i as int],
            self@.contains_key(self.key_seq()[i as int]),
            *r == self@[self.key_seq()[i as int]],
    {
        proof {
            lemma_entries_map_at(self.entries@, i as int);
        }
        &self.entries[i].value
    }

    /// The value stored under `k`, if any.
    pub fn get(&self, k: &str) -> (r: Option<&T>)
        requires
            self.wf(),
        ensures
            r is None <==> !self@.contains_key(k@),
            r matches Some(v) ==> *v == self@[k@],
    {
        match self.position(k) {
            Some(i) => Some(self.value_at(i)),
            None => None,
        }
    }

    /// Replaces the value at position `i`; keys and order are unchanged.
    pub fn set_at(&mut self, i: usize, v: T)
        requires
            old(self).wf(),
            i < old(self).key_seq().len(),
        ensures
            final(self).wf(),
            final(self)@ == old(self)@.insert(old(self).key_seq()[i as int], v),
            final(self).key_seq() == old(self).key_seq(),
            final(self).value_seq() == old(self).value_seq().update(i as int, v),
    {
        let ghost s0 = self.entries@;
        let key = self.entries[i].key.clone();
        self.entries.set(i, Entry { key, value: v });
        let ghost s1 = self.entries@;
        proof {
            assert(distinct_keys(s1)) by {
                assert forall|a: int, b: int| 0 <= a < b < s1.len() implies s1[a].key@
                    != s1[b].key@ by {
                    assert(s1[a].key@ == s0[a].key@);
                    assert(s1[b].key@ == s0[b].key@);
                }
            }
            let m = old(self)@.insert(s0[i as int].key@, v);
            assert forall|k: Seq<char>| has_key(s1, k) <==> #[trigger] m.contains_key(k) by {
                if has_key(s1, k) {
                    let j = choose|j: int| 0 <= j < s1.len() && s1[j].key@ == k;
                    assert(s0[j].key@ == k);
                    assert(has_key(s0, k));
                }
                if m.contains_key(k) && k != s0[i as int].key@ {
                    let j = choose|j: int| 0 <= j < s0.len() && s0[j].key@ == k;
                    assert(s1[j].key@ == k);
                }
                if k == s0[i as int].key@ {
                    assert(s1[i as int].key@ == k);
                }
            }
            assert forall|j: int| 0 <= j < s1.len() implies m[#[trigger] s1[j].key@]
                == s1[j].value by {
                if j != i {
                    lemma_entries_map_at(s0, j);
                    assert(s0[j].key@ != s0[i as int].key@) by {
                        if j < i {
                        } else {
                        }
                    }
                }
            }
            lemma_entries_map_eq(s1, m);
            assert(self.key_seq() =~= old(self).key_seq());
            assert(self.value_seq() =~= old(self).value_seq().update(i as int, v));
        }
    }

    /// Stores `v` under `k`, replacing an existing value in place or adding
    /// the key at the end.
    pub fn insert(&mut self, k: String, v: T)
        requires
            old(self).wf(),
        ensures
            final(self).wf(),
            final(self)@ == old(self)@.insert(k@, v),
            old(self)@.contains_key(k@) ==> final(self).key_seq() == old(self).key_seq(),
            !old(self)@.contains_key(k@) ==> final(self).key_seq() == old(self).key_seq().push(k@),
    {
        match self.position(k.as_str()) {
            Some(i) => {
                self.set_at(i, v);
            },
            None => {
                let ghost s0 = self.entries@;
                let ghost kv = k@;
                self.entries.push(Entry { key: k, value: v });
                let ghost s1 = self.entries@;
                proof {
                    assert forall|j: int| 0 <= j < s0.len() implies s0[j].key@ != kv by {
                        if s0[j].key@ == kv {
                            assert(has_key(s0, kv));
                        }
                    }
                    assert(distinct_keys(s1)) by {
                        assert forall|a: int, b: int| 0 <= a < b < s1.len() implies s1[a].key@
                            != s1[b].key@ by {
                            if b == s0.len() {
                                assert(s1[a] == s0[a]);
                            } else {
                                assert(s1[a] == s0[a]);
                                assert(s1[b] == s0[b]);
                            }
                        }
                    }
                    let m = old(self)@.insert(kv, v);
                    assert forall|kk: Seq<char>| has_key(s1, kk) <==> #[trigger] m.contains_key(
                        kk,
                    ) by {
                        if has_key(s1, kk) {
                            let j = choose|j: int| 0 <= j < s1.len() && s1[j].key@ == kk;
                            if j < s0.len() {
                                assert(s1[j] == s0[j]);
                                assert(has_key(s0, kk));
                            }
                        }
                        if m.contains_key(kk) && kk != kv {
                            let j = choose|j: int| 0 <= j < s0.len() && s0[j].key@ == kk;
                            assert(s1[j] == s0[j]);
                        }
                        if kk == kv {
                            assert(s1[s0.len() as int].key@ == kk);
                        }
                    }
                    assert forall|j: int| 0 <= j < s1.len() implies m[#[trigger] s1[j].key@]
                        == s1[j].value by {
                        if j < s0.len() {
                            assert(s1[j] == s0[j]);
                            lemma_entries_map_at(s0, j);
                        }
                    }
                    lemma_entries_map_eq(s1, m);
                    assert(self.key_seq() =~= old(self).key_seq().push(kv));
                }
            },
        }
    }

    /// Removes the entry under `k`, if any; the others keep their order.
    pub fn remove(&mut self, k: &str)
        requires
            old(self).wf(),
        ensures
            final(self).wf(),
            final(self)@ == old(self)@.remove(k@),
    {
        match self.position(k) {
            None => {
                assert(old(self)@.remove(k@) =~= old(self)@);
            },
            Some(i) => {
                let ghost s0 = self.entries@;
                self.entries.remove(i);
                let ghost s1 = self.entries@;
                proof {
                    assert(s1 =~= s0.remove(i as int));
                    assert forall|j: int| 0 <= j < s1.len() implies #[trigger] s1[j] == (if j < i {
                        s0[j]
                    } else {
                        s0[j + 1]
                    }) by {}
                    assert(distinct_keys(s1)) by {
                        assert forall|a: int, b: int| 0 <= a < b < s1.len() implies s1[a].key@
                            != s1[b].key@ by {
                            let a0 = if a < i {
                                a
                            } else {
                                a + 1
                            };
                            let b0 = if b < i {
                                b
                            } else {
                                b + 1
                            };
                            assert(s1[a] == s0[a0]);
                            assert(s1[b] == s0[b0]);
                        }
                    }
                    let m = old(self)@.remove(k@);
                    assert forall|kk: Seq<char>| has_key(s1, kk) <==> #[trigger] m.contains_key(
                        kk,
                    ) by {
                        if has_key(s1, kk) {
                            let j = choose|j: int| 0 <= j < s1.len() && s1[j].key@ == kk;
                            let j0 = if j < i {
                                j
                            } else {
                                j + 1
                            };
                            assert(s1[j] == s0[j0]);
                            assert(has_key(s0, kk));
                            assert(s0[j0].key@ != s0[i as int].key@);
                        }
                        if m.contains_key(kk) {
                            let j = choose|j: int| 0 <= j < s0.len() && s0[j].key@ == kk;
                            assert(j != i);
                            let j1 = if j < i {
                                j
                            } else {
                                j - 1
                            };
                            assert(s1[j1] == s0[j]);
                        }
                    }
                    assert forall|j: int| 0 <= j < s1.len() implies m[#[trigger] s1[j].key@]
                        == s1[j].value by {
                        let j0 = if j < i {
                            j
                        } else {
                            j + 1
                        };
                        assert(s1[j] == s0[j0]);
                        lemma_entries_map_at(s0, j0);
                    }
                    lemma_entries_map_eq(s1, m);
                }
            },
        }
    }

    /// Copies of the keys, in table order.
    pub fn keys(&self) -> (r: Vec<String>)
        requires
            self.wf(),
        ensures
            r@.len() == self.key_seq().len(),
            forall|i: int| 0 <= i < r@.len() ==> #[trigger] r@[i]@ == self.key_seq()[i],
    {
        let mut out: Vec<String> = Vec::new();
        let mut i: usize = 0;
        while i < self.entries.len()
            invariant
                i <= self.entries@.len(),
                out@.len() == i,
                forall|j: int| 0 <= j < i ==> #[trigger] out@[j]@ == self.entries@[j].key@,
            decreases self.entries@.len() - i,
        {
            out.push(self.entries[i].key.clone());
            i = i + 1;
        }
        out
    }
}

} // verus!
