//! A small string-keyed table: running agent actions by request id, resolved
//! addresses by host alias, in-flight logins by OAuth state.
//!
//! Entries live in a `Vec` in insertion order; the table's meaning is the map
//! from each key to its value, and no key occurs twice.

use vstd::prelude::*;
use crate::text::str_eq;

verus! {

/// The map a list of entries describes (a later entry wins).
pub open spec fn entries_map<V>(es: Seq<(String, V)>) -> Map<Seq<char>, V>
    decreases es.len(),
{
    if es.len() == 0 {
        Map::empty()
    } else {
        entries_map(es.drop_last()).insert(es.last().0@, es.last().1)
    }
}

/// No key occurs twice.
pub open spec fn keys_unique<V>(es: Seq<(String, V)>) -> bool {
    forall|i: int, j: int| 0 <= i < j < es.len() ==> (#[trigger] es[i]).0@ != (#[trigger] es[j]).0@
}

proof fn lemma_entries_map<V>(es: Seq<(String, V)>)
    requires
        keys_unique(es),
    ensures
        entries_map(es).dom().finite(),
        entries_map(es).dom().len() == es.len(),
        forall|k: Seq<char>| #[trigger] entries_map(es).contains_key(k) <==> exists|i: int| 0 <= i < es.len() && es[i].0@ == k,
        forall|i: int| 0 <= i < es.len() ==> entries_map(es)[(#[trigger] es[i]).0@] == es[i].1,
    decreases es.len(),
{
    if es.len() > 0 {
        let p = es.drop_last();
        assert(keys_unique(p));
        lemma_entries_map(p);
        assert(!entries_map(p).contains_key(es.last().0@)) by {
            if entries_map(p).contains_key(es.last().0@) {
                let i = choose|i: int| 0 <= i < p.len() && p[i].0@ == es.last().0@;
                assert(es[i] == p[i]);
            }
        }
        assert forall|k: Seq<char>| #[trigger] entries_map(es).contains_key(k) <==> exists|i: int| 0 <= i < es.len() && es[i].0@ == k by {
            if entries_map(es).contains_key(k) && k != es.last().0@ {
                let i = choose|i: int| 0 <= i < p.len() && p[i].0@ == k;
                assert(es[i] == p[i]);
            }
            if exists|i: int| 0 <= i < es.len() && es[i].0@ == k {
                let i = choose|i: int| 0 <= i < es.len() && es[i].0@ == k;
                if i < es.len() - 1 {
                    assert(p[i] == es[i]);
                }
            }
        }
        assert forall|i: int| 0 <= i < es.len() implies entries_map(es)[(#[trigger] es[i]).0@] == es[i].1 by {
            if i < es.len() - 1 {
                assert(p[i] == es[i]);
                assert(es[i].0@ != es.last().0@);
            }
        }
    }
}

/// Removing entry `k` from a duplicate-free list removes its key from the map.
proof fn lemma_entries_remove<V>(es: Seq<(String, V)>, k: int)
    requires
        keys_unique(es),
        0 <= k < es.len(),
    ensures
        keys_unique(es.remove(k)),
        entries_map(es.remove(k)) == entries_map(es).remove(es[k].0@),
{
    let r = es.remove(k);
    assert forall|i: int, j: int| 0 <= i < j < r.len() implies (#[trigger] r[i]).0@ != (#[trigger] r[j]).0@ by {
        let ii = if i < k { i } else { i + 1 };
        let jj = if j < k { j } else { j + 1 };
        assert(r[i] == es[ii] && r[j] == es[jj]);
    }
    lemma_entries_map(es);
    lemma_entries_map(r);
    let a = entries_map(r);
    let b = entries_map(es).remove(es[k].0@);
    assert forall|key: Seq<char>| #[trigger] a.contains_key(key) <==> b.contains_key(key) by {
        if a.contains_key(key) {
            let i = choose|i: int| 0 <= i < r.len() && r[i].0@ == key;
            let ii = if i < k { i } else { i + 1 };
            assert(r[i] == es[ii]);
        }
        if b.contains_key(key) {
            let i = choose|i: int| 0 <= i < es.len() && es[i].0@ == key;
            assert(i != k);
            if i < k {
                assert(r[i] == es[i]);
            } else {
                assert(r[i - 1] == es[i]);
            }
        }
    }
    assert forall|key: Seq<char>| a.contains_key(key) implies a[key] == b[key] by {
        let i = choose|i: int| 0 <= i < r.len() && r[i].0@ == key;
        let ii = if i < k { i } else { i + 1 };
        assert(r[i] == es[ii]);
    }
    assert(a =~= b);
}

/// A table from string keys to values.
pub struct Registry<V> {
    entries: Vec<(String, V)>,
}

impl<V> Registry<V> {
    /// The entries by key.
    pub closed spec fn view(&self) -> Map<Seq<char>, V> {
        entries_map(self.entries@)
    }

    /// The table is well formed.
    pub closed spec fn wf(&self) -> bool {
        keys_unique(self.entries@)
    }

    /// An empty table.
    pub fn new() -> (r: Self)
        ensures
            r.wf(),
            r.view() == Map::<Seq<char>, V>::empty(),
    {
        Registry { entries: Vec::new() }
    }

    /// Number of entries.
    pub fn len(&self) -> (n: usize)
        requires
            self.wf(),
        ensures
            n == self.view().dom().len(),
    {
        proof {
            lemma_entries_map(self.entries@);
        }
        self.entries.len()
    }

    fn position(&self, key: &str) -> (r: Option<usize>)
        requires
            self.wf(),
        ensures
            match r {
                Some(i) => i < self.entries@.len() && self.entries@[i as int].0@ == key@,
                None => !self.view().contains_key(key@),
            },
    {
        proof {
            lemma_entries_map(self.entries@);
        }
        let mut i: usize = 0;
        while i < self.entries.len()
            invariant
                i <= self.entries@.len(),
                forall|j: int| 0 <= j < i ==> self.entries@[j].0@ != key@,
            decreases self.entries@.len() - i,
        {
            if str_eq(self.entries[i].0.as_str(), key) {
                return Some(i);
            }
            i = i + 1;
        }
        None
    }

    /// The value under `key`, if any.
    pub fn get(&self, key: &str) -> (r: Option<&V>)
        requires
            self.wf(),
        ensures
            match r {
                Some(v) => self.view().contains_key(key@) && *v == self.view()[key@],
                None => !self.view().contains_key(key@),
            },
    {
        proof {
            lemma_entries_map(self.entries@);
        }
        match self.position(key) {
            Some(i) => Some(&self.entries[i].1),
            None => None,
        }
    }

    /// Store `v` under `key`, replacing what was there.
    pub fn insert(&mut self, key: String, v: V)
        requires
            old(self).wf(),
        ensures
            final(self).wf(),
            final(self).view() == old(self).view().insert(key@, v),
    {
        proof {
            lemma_entries_map(self.entries@);
        }
        match self.position(key.as_str()) {
            Some(i) => {
                let ghost old_es = self.entries@;
                proof {
                    lemma_entries_remove(old_es, i as int);
                }
                self.entries.remove(i);
                let ghost mid = self.entries@;
                assert(mid == old_es.remove(i as int));
                proof {
                    lemma_entries_map(mid);
                }
                let ghost kv = key@;
                let ghost val = v;
                self.entries.push((key, v));
                assert(self.entries@.drop_last() == mid);
                assert forall|a: int, b: int| 0 <= a < b < self.entries@.len() implies (#[trigger] self.entries@[a]).0@ != (#[trigger] self.entries@[b]).0@ by {
                    if b == self.entries@.len() - 1 {
                        assert(self.entries@[a] == mid[a]);
                        assert(!entries_map(mid).contains_key(kv));
                    } else {
                        assert(self.entries@[a] == mid[a] && self.entries@[b] == mid[b]);
                    }
                }
                assert(self.view() =~= old(self).view().insert(kv, val));
            },
            None => {
                let ghost old_es = self.entries@;
                self.entries.push((key, v));
                assert(self.entries@.drop_last() == old_es);
                assert forall|a: int, b: int| 0 <= a < b < self.entries@.len() implies (#[trigger] self.entries@[a]).0@ != (#[trigger] self.entries@[b]).0@ by {
                    if b == self.entries@.len() - 1 {
                        assert(self.entries@[a] == old_es[a]);
                    } else {
                        assert(self.entries@[a] == old_es[a] && self.entries@[b] == old_es[b]);
                    }
                }
            },
        }
    }

    /// Remove the entry under `key` and hand back its value.
    pub fn remove(&mut self, key: &str) -> (r: Option<V>)
        requires
            old(self).wf(),
        ensures
            final(self).wf(),
            final(self).view() == old(self).view().remove(key@),
            match r {
                Some(v) => old(self).view().contains_key(key@) && v == old(self).view()[key@],
                None => !old(self).view().contains_key(key@),
            },
    {
        proof {
            lemma_entries_map(self.entries@);
        }
        match self.position(key) {
            Some(i) => {
                let ghost old_es = self.entries@;
                proof {
                    lemma_entries_remove(old_es, i as int);
                }
                let (_, v) = self.entries.remove(i);
                assert(self.entries@ == old_es.remove(i as int));
                Some(v)
            },
            None => {
                assert(old(self).view().remove(key@) =~= old(self).view());
                None
            },
        }
    }

    /// When the table holds exactly one entry, remove it and hand it back;
    /// otherwise leave the table as it is.
    pub fn take_single(&mut self) -> (r: Option<(String, V)>)
        requires
            old(self).wf(),
        ensures
            final(self).wf(),
            old(self).view().dom().len() == 1 ==> (r matches Some(kv)
                && old(self).view().dom() == set![kv.0@]
                && old(self).view()[kv.0@] == kv.1
                && final(self).view() == Map::<Seq<char>, V>::empty()),
            old(self).view().dom().len() != 1 ==> r is None && final(self).view() == old(self).view(),
    {
        proof {
            lemma_entries_map(self.entries@);
        }
        if self.entries.len() == 1 {
            let ghost old_es = self.entries@;
            let kv = self.entries.pop().unwrap();
            proof {
                assert(old_es.len() == 1);
                assert(old_es[0] == kv);
                assert(old(self).view().dom() =~= set![kv.0@]);
                lemma_entries_map(self.entries@);
                assert(self.view() =~= Map::<Seq<char>, V>::empty());
            }
            Some(kv)
        } else {
            None
        }
    }
}

/// What a table gives back for a key is what was last stored under it, and a
/// removed key gives back nothing; other keys are untouched by either.
pub proof fn law_registry_read_after_write<V>(
    before: Map<Seq<char>, V>,
    key: Seq<char>,
    other: Seq<char>,
    v: V,
)
    requires
        other != key,
    ensures
        before.insert(key, v).contains_key(key) && before.insert(key, v)[key] == v,
        !before.insert(key, v).remove(key).contains_key(key),
        before.insert(key, v).contains_key(other) == before.contains_key(other),
        before.contains_key(other) ==> before.insert(key, v)[other] == before[other],
        before.remove(key).contains_key(other) == before.contains_key(other),
{
}

} // verus!
