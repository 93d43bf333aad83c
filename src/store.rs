//! A table of values under unique text keys, kept in insertion order: the
//! shape of every named collection of the editor (themes, snippets,
//! extensions, checkpoints, cursors).

use vstd::prelude::*;
use crate::text::text_eq;

verus! {

/// `r` is an error carrying the message `m`.
pub open spec fn fails_with<T>(r: Result<T, String>, m: Seq<char>) -> bool {
    r matches Err(e) && e@ == m
}

/// Some entry has key `k`.
pub open spec fn has_key<V>(s: Seq<(Seq<char>, V)>, k: Seq<char>) -> bool {
    exists|i: int| 0 <= i < s.len() && (#[trigger] s[i]).0 == k
}

/// The value under `k`.
pub open spec fn lookup<V>(s: Seq<(Seq<char>, V)>, k: Seq<char>) -> Option<V> {
    if has_key(s, k) {
        Some(s[choose|i: int| 0 <= i < s.len() && (#[trigger] s[i]).0 == k].1)
    } else {
        None
    }
}

/// `k` set to `v`: replaced in place, or appended.
pub open spec fn put<V>(s: Seq<(Seq<char>, V)>, k: Seq<char>, v: V) -> Seq<(Seq<char>, V)> {
    if has_key(s, k) {
        s.update(choose|i: int| 0 <= i < s.len() && (#[trigger] s[i]).0 == k, (k, v))
    } else {
        s.push((k, v))
    }
}

/// Every entry but the one under `k`.
pub open spec fn without<V>(s: Seq<(Seq<char>, V)>, k: Seq<char>) -> Seq<(Seq<char>, V)>
    decreases s.len(),
{
    if s.len() == 0 {
        s
    } else if s.last().0 == k {
        without(s.drop_last(), k)
    } else {
        without(s.drop_last(), k).push(s.last())
    }
}

/// The keys, in order.
pub open spec fn key_seq<V>(s: Seq<(Seq<char>, V)>) -> Seq<Seq<char>> {
    s.map_values(|e: (Seq<char>, V)| e.0)
}

pub open spec fn unique_keys<V>(s: Seq<(Seq<char>, V)>) -> bool {
    forall|i: int, j: int| 0 <= i < j < s.len() ==> (#[trigger] s[i]).0 != (#[trigger] s[j]).0
}

/// Values under unique keys, oldest first.
pub struct NamedStore<V> {
    entries: Vec<(String, V)>,
}

impl<V> View for NamedStore<V> {
    type V = Seq<(Seq<char>, V)>;

    closed spec fn view(&self) -> Seq<(Seq<char>, V)> {
        self.entries@.map_values(|e: (String, V)| (e.0@, e.1))
    }
}

impl<V> NamedStore<V> {
    pub open spec fn wf(&self) -> bool {
        unique_keys(self@)
    }

    /// An empty table.
    pub fn new() -> (r: Self)
        ensures
            r.wf(),
            r@ == Seq::<(Seq<char>, V)>::empty(),
    {
        let r = NamedStore { entries: Vec::new() };
        proof {
            assert(r@ =~= Seq::<(Seq<char>, V)>::empty());
        }
        r
    }

    /// Number of entries.
    pub fn len(&self) -> (r: usize)
        ensures
            r == self@.len(),
    {
        self.entries.len()
    }

    fn find(&self, key: &str) -> (r: Option<usize>)
        ensures
            r matches Some(i) ==> i < self@.len() && self@[i as int].0 == key@,
            r is None ==> !has_key(self@, key@),
    {
        let mut i: usize = 0;
        while i < self.entries.len()
            invariant
                0 <= i <= self.entries@.len(),
                self@.len() == self.entries@.len(),
                forall|j: int| 0 <= j < i ==> self@[j].0 != key@,
            decreases self.entries@.len() - i,
        {
            if text_eq(self.entries[i].0.as_str(), key) {
                return Some(i);
            }
            i += 1;
        }
        None
    }

    /// Whether some entry has key `key`.
    pub fn contains_key(&self, key: &str) -> (r: bool)
        ensures
            r == has_key(self@, key@),
    {
        self.find(key).is_some()
    }

    /// The value under `key`.
    pub fn get(&self, key: &str) -> (r: Option<&V>)
        requires
            self.wf(),
        ensures
            r matches Some(v) ==> lookup(self@, key@) == Some(*v),
            r is None ==> lookup(self@, key@) is None,
    {
        match self.find(key) {
            Some(i) => {
                proof {
                    let j = choose|j: int| 0 <= j < self@.len() && (#[trigger] self@[j]).0 == key@;
                    assert(j == i);
                }
                Some(&self.entries[i].1)
            },
            None => None,
        }
    }

    /// Sets `key` to `value`, replacing what was there.
    pub fn insert(&mut self, key: String, value: V)
        requires
            old(self).wf(),
        ensures
            final(self).wf(),
            final(self)@ == put(old(self)@, key@, value),
    {
        let ghost s = self@;
        let ghost k = key@;
        match self.find(key.as_str()) {
            Some(i) => {
                self.entries.set(i, (key, value));
                proof {
                    assert(self@ =~= s.update(i as int, (k, value)));
                    let j = choose|j: int| 0 <= j < s.len() && (#[trigger] s[j]).0 == k;
                    assert(j == i);
                }
            },
            None => {
                self.entries.push((key, value));
                proof {
                    assert(self@ =~= s.push((k, value)));
                }
            },
        }
    }

    /// Removes the entry under `key`; whether there was one.
    pub fn remove(&mut self, key: &str) -> (r: bool)
        requires
            old(self).wf(),
        ensures
            final(self).wf(),
            r == has_key(old(self)@, key@),
            final(self)@ == without(old(self)@, key@),
    {
        let ghost s = self@;
        match self.find(key) {
            Some(i) => {
                self.entries.remove(i);
                proof {
                    assert(self@ =~= s.remove(i as int));
                    lemma_without_unique(s, i as int);
                }
                true
            },
            None => {
                proof {
                    lemma_without_absent(s, key@);
                }
                false
            },
        }
    }

    /// Removes every entry.
    pub fn clear(&mut self)
        ensures
            final(self).wf(),
            final(self)@ == Seq::<(Seq<char>, V)>::empty(),
    {
        self.entries.clear();
        proof {
            assert(self@ =~= Seq::<(Seq<char>, V)>::empty());
        }
    }

    /// The keys, oldest first.
    pub fn keys(&self) -> (r: Vec<String>)
        ensures
            r@.map_values(|s: String| s@) == key_seq(self@),
    {
        let mut out: Vec<String> = Vec::new();
        let mut i: usize = 0;
        while i < self.entries.len()
            invariant
                0 <= i <= self.entries@.len(),
                self@.len() == self.entries@.len(),
                out@.map_values(|s: String| s@) == key_seq(self@).subrange(0, i as int),
            decreases self.entries@.len() - i,
        {
            let ghost prev = out@;
            out.push(self.entries[i].0.clone());
            proof {
                assert(out@.map_values(|s: String| s@) =~= prev.map_values(|s: String| s@).push(self@[i as int].0));
                assert(key_seq(self@).subrange(0, i + 1) =~= key_seq(self@).subrange(0, i as int).push(self@[i as int].0));
            }
            i += 1;
        }
        proof {
            assert(key_seq(self@).subrange(0, i as int) =~= key_seq(self@));
        }
        out
    }

    /// The values, oldest first.
    pub fn values(&self) -> (r: Vec<&V>)
        ensures
            r@.len() == self@.len(),
            forall|i: int| 0 <= i < r@.len() ==> *r@[i] == (#[trigger] self@[i]).1,
    {
        let mut out: Vec<&V> = Vec::new();
        let mut i: usize = 0;
        while i < self.entries.len()
            invariant
                0 <= i <= self.entries@.len(),
                self@.len() == self.entries@.len(),
                out@.len() == i,
                forall|j: int| 0 <= j < i ==> *out@[j] == (#[trigger] self@[j]).1,
            decreases self.entries@.len() - i,
        {
            out.push(&self.entries[i].1);
            i += 1;
        }
        out
    }
}

/// After `k` is set to `v`, looking up `k` finds `v` and every other key
/// finds what it found before.
pub proof fn lemma_put_lookup<V>(s: Seq<(Seq<char>, V)>, k: Seq<char>, v: V)
    requires
        unique_keys(s),
    ensures
        lookup(put(s, k, v), k) == Some(v),
        forall|k2: Seq<char>| k2 != k ==> #[trigger] lookup(put(s, k, v), k2) == lookup(s, k2),
        has_key(put(s, k, v), k),
        forall|k2: Seq<char>| k2 != k ==> #[trigger] has_key(put(s, k, v), k2) == has_key(s, k2),
{
    let t = put(s, k, v);
    if has_key(s, k) {
        let i = choose|i: int| 0 <= i < s.len() && (#[trigger] s[i]).0 == k;
        assert(t[i].0 == k);
        let j = choose|j: int| 0 <= j < t.len() && (#[trigger] t[j]).0 == k;
        assert(j == i);
    } else {
        assert(t[s.len() as int].0 == k);
        let j = choose|j: int| 0 <= j < t.len() && (#[trigger] t[j]).0 == k;
        assert(j == s.len());
    }
    assert forall|k2: Seq<char>| k2 != k implies #[trigger] has_key(t, k2) == has_key(s, k2) by {
        if has_key(s, k2) {
            let a = choose|a: int| 0 <= a < s.len() && (#[trigger] s[a]).0 == k2;
            assert(t[a].0 == k2);
        }
        if has_key(t, k2) {
            let a = choose|a: int| 0 <= a < t.len() && (#[trigger] t[a]).0 == k2;
            assert(s[a].0 == k2);
        }
    }
    assert forall|k2: Seq<char>| k2 != k implies #[trigger] lookup(t, k2) == lookup(s, k2) by {
        if has_key(s, k2) {
            let a = choose|a: int| 0 <= a < s.len() && (#[trigger] s[a]).0 == k2;
            assert(t[a].0 == k2);
            let b = choose|b: int| 0 <= b < t.len() && (#[trigger] t[b]).0 == k2;
            assert(s[b].0 == k2);
            assert(t[b] == s[b]);
        }
    }
}

proof fn lemma_without_absent<V>(s: Seq<(Seq<char>, V)>, k: Seq<char>)
    requires
        !has_key(s, k),
    ensures
        without(s, k) == s,
    decreases s.len(),
{
    if s.len() > 0 {
        let init = s.drop_last();
        assert(!has_key(init, k)) by {
            if has_key(init, k) {
                let j = choose|j: int| 0 <= j < init.len() && (#[trigger] init[j]).0 == k;
                assert(s[j] == init[j]);
            }
        }
        assert(s[s.len() - 1].0 != k);
        lemma_without_absent(init, k);
        assert(init.push(s.last()) =~= s);
    }
}

proof fn lemma_without_unique<V>(s: Seq<(Seq<char>, V)>, i: int)
    requires
        unique_keys(s),
        0 <= i < s.len(),
    ensures
        without(s, s[i].0) == s.remove(i),
        unique_keys(s.remove(i)),
    decreases s.len(),
{
    let k = s[i].0;
    let init = s.drop_last();
    if i == s.len() - 1 {
        assert(!has_key(init, k)) by {
            if has_key(init, k) {
                let j = choose|j: int| 0 <= j < init.len() && (#[trigger] init[j]).0 == k;
                assert(s[j].0 != s[i].0);
            }
        }
        lemma_without_absent(init, k);
        assert(s.remove(i) =~= init);
    } else {
        assert(s.last().0 != k);
        lemma_without_unique(init, i);
        assert(s.remove(i) =~= init.remove(i).push(s.last()));
    }
    assert forall|a: int, b: int| 0 <= a < b < s.remove(i).len() implies
        (#[trigger] s.remove(i)[a]).0 != (#[trigger] s.remove(i)[b]).0 by {
        let a1 = if a < i { a } else { a + 1 };
        let b1 = if b < i { b } else { b + 1 };
        assert(s.remove(i)[a] == s[a1]);
        assert(s.remove(i)[b] == s[b1]);
    }
}

} // verus!
