//! Identifier-keyed containers backing the registry maps.
//!
//! The registry owns a handful of small maps keyed by trigger identifier.
//! They are kept as vectors of entries with pairwise-distinct keys and are
//! viewed as a `Map` in specifications.

use vstd::prelude::*;

verus! {

/// True when no two entries share a key.
pub open spec fn unique_keys<V>(s: Seq<(String, V)>) -> bool {
    forall|i: int, j: int| 0 <= i < j < s.len() ==> s[i].0@ != s[j].0@
}

/// True when some entry carries the key `k`.
pub open spec fn has_key<V>(s: Seq<(String, V)>, k: Seq<char>) -> bool {
    exists|i: int| 0 <= i < s.len() && s[i].0@ == k
}

/// The index of the entry carrying the key `k`; meaningful only when
/// `has_key(s, k)` holds and keys are unique.
pub open spec fn key_index<V>(s: Seq<(String, V)>, k: Seq<char>) -> int {
    choose|i: int| 0 <= i < s.len() && s[i].0@ == k
}

/// A map from trigger identifier to a value, stored as entries with
/// pairwise-distinct keys.
pub struct AssocList<V> {
    pub entries: Vec<(String, V)>,
}

impl<V> View for AssocList<V> {
    type V = Map<Seq<char>, V>;

    open spec fn view(&self) -> Map<Seq<char>, V> {
        Map::new(
            |k: Seq<char>| has_key(self.entries@, k),
            |k: Seq<char>| self.entries@[key_index(self.entries@, k)].1,
        )
    }
}

impl<V> AssocList<V> {
    pub open spec fn wf(&self) -> bool {
        unique_keys(self.entries@)
    }

    pub fn new() -> (r: Self)
        ensures
            r.wf(),
            r@ == Map::<Seq<char>, V>::empty(),
    {
        let r = AssocList { entries: Vec::new() };
        proof {
            assert(r@ =~= Map::<Seq<char>, V>::empty());
        }
        r
    }

    /// The position of the entry keyed by `k`, if one exists.
    fn find(&self, k: &String) -> (r: Option<usize>)
        requires
            self.wf(),
        ensures
            match r {
                Some(i) => i < self.entries@.len() && self.entries@[i as int].0@ == k@
                    && key_index(self.entries@, k@) == i as int,
                None => !self@.contains_key(k@),
            },
    {
        let n = self.entries.len();
        for i in 0..n
            invariant
                n == self.entries@.len(),
                forall|j: int| 0 <= j < i ==> self.entries@[j].0@ != k@,
                self.wf(),
        {
            if self.entries[i].0 == *k {
                proof {
                    let w = key_index(self.entries@, k@);
                    assert(0 <= w < self.entries@.len() && self.entries@[w].0@ == k@);
                    assert(w == i as int);
                }
                return Some(i);
            }
        }
        None
    }

    pub fn contains_key(&self, k: &String) -> (r: bool)
        requires
            self.wf(),
        ensures
            r == self@.contains_key(k@),
    {
        self.find(k).is_some()
    }

    pub fn get(&self, k: &String) -> (r: Option<&V>)
        requires
            self.wf(),
        ensures
            match r {
                Some(v) => self@.contains_key(k@) && *v == self@[k@],
                None => !self@.contains_key(k@),
            },
    {
        match self.find(k) {
            Some(i) => Some(&self.entries[i].1),
            None => None,
        }
    }

    /// Bind `k` to `v`, replacing any previous binding.
    pub fn insert(&mut self, k: String, v: V)
        requires
            old(self).wf(),
        ensures
            final(self).wf(),
            final(self)@ == old(self)@.insert(k@, v),
    {
        let found = self.find(&k);
        match found {
            Some(i) => {
                let ghost old_entries = self.entries@;
                self.entries[i] = (k, v);
                proof {
                    lemma_update_view(old_entries, self.entries@, i as int);
                    assert(self@ =~= old(self)@.insert(self.entries@[i as int].0@, v));
                }
            },
            None => {
                let ghost old_entries = self.entries@;
                let ghost key = k@;
                self.entries.push((k, v));
                proof {
                    lemma_push_view(old_entries, self.entries@);
                    assert(self@ =~= old(self)@.insert(key, v));
                }
            },
        }
    }

    /// The keys, in entry order: one per entry, pairwise distinct, and
    /// together covering the map's domain.
    pub fn keys(&self) -> (r: Vec<String>)
        requires
            self.wf(),
        ensures
            r@.len() == self.entries@.len(),
            forall|i: int| 0 <= i < r@.len() ==> r@[i] == self.entries@[i].0,
            forall|i: int| 0 <= i < r@.len() ==> #[trigger] self@.contains_key(r@[i]@),
            forall|k: Seq<char>| #[trigger] self@.contains_key(k) ==> exists|i: int|
                0 <= i < r@.len() && r@[i]@ == k,
            forall|i: int, j: int| 0 <= i < j < r@.len() ==> r@[i]@ != r@[j]@,
    {
        let mut r: Vec<String> = Vec::new();
        let n = self.entries.len();
        for i in 0..n
            invariant
                n == self.entries@.len(),
                r@.len() == i,
                forall|j: int| 0 <= j < i ==> r@[j] == self.entries@[j].0,
                self.wf(),
        {
            r.push(self.entries[i].0.clone());
        }
        proof {
            assert forall|i: int| 0 <= i < r@.len() implies #[trigger] self@.contains_key(r@[i]@) by {
                assert(self.entries@[i].0@ == r@[i]@);
            }
            assert forall|k: Seq<char>| #[trigger] self@.contains_key(k) implies exists|i: int|
                0 <= i < r@.len() && r@[i]@ == k by {
                let w = key_index(self.entries@, k);
                assert(0 <= w < self.entries@.len() && self.entries@[w].0@ == k);
                assert(r@[w]@ == k);
            }
        }
        r
    }

    /// Drop the binding of `k`, if any.
    pub fn remove(&mut self, k: &String)
        requires
            old(self).wf(),
        ensures
            final(self).wf(),
            final(self)@ == old(self)@.remove(k@),
    {
        let found = self.find(k);
        match found {
            Some(i) => {
                let ghost old_entries = self.entries@;
                self.entries.remove(i);
                proof {
                    lemma_remove_view(old_entries, self.entries@, i as int);
                    assert(self@ =~= old(self)@.remove(k@));
                }
            },
            None => {
                proof {
                    assert(self@ =~= old(self)@.remove(k@));
                }
            },
        }
    }
}

/// After replacing the entry at `i` (same or new key), membership and values
/// follow from the old sequence plus the one new entry.
proof fn lemma_update_view<V>(s: Seq<(String, V)>, t: Seq<(String, V)>, i: int)
    requires
        unique_keys(s),
        0 <= i < s.len(),
        t.len() == s.len(),
        t == s.update(i, t[i]),
        t[i].0@ == s[i].0@,
    ensures
        unique_keys(t),
        forall|k: Seq<char>| #[trigger] has_key(t, k) == has_key(s, k),
        forall|k: Seq<char>|
            has_key(t, k) && k != t[i].0@ ==> #[trigger] t[key_index(t, k)] == s[key_index(s, k)],
        has_key(t, t[i].0@) && key_index(t, t[i].0@) == i,
{
    assert forall|k: Seq<char>| #[trigger] has_key(t, k) == has_key(s, k) by {
        if has_key(t, k) {
            let j = choose|j: int| 0 <= j < t.len() && t[j].0@ == k;
            assert(s[j].0@ == k);
        }
        if has_key(s, k) {
            let j = choose|j: int| 0 <= j < s.len() && s[j].0@ == k;
            assert(t[j].0@ == k);
        }
    }
    assert forall|k: Seq<char>|
        has_key(t, k) && k != t[i].0@ implies #[trigger] t[key_index(t, k)] == s[key_index(s, k)] by {
        let j = key_index(t, k);
        assert(0 <= j < t.len() && t[j].0@ == k);
        assert(j != i);
        assert(s[j].0@ == k);
        let j2 = key_index(s, k);
        assert(0 <= j2 < s.len() && s[j2].0@ == k);
        assert(j2 == j);
    }
    assert(t[i].0@ == t[i].0@);
    assert(has_key(t, t[i].0@));
    let j = key_index(t, t[i].0@);
    assert(0 <= j < t.len() && t[j].0@ == t[i].0@);
    assert(j == i);
}

/// After pushing an entry with a fresh key, membership grows by that key
/// alone and other values stay where they were.
proof fn lemma_push_view<V>(s: Seq<(String, V)>, t: Seq<(String, V)>)
    requires
        unique_keys(s),
        t.len() == s.len() + 1,
        t == s.push(t[s.len() as int]),
        !has_key(s, t[s.len() as int].0@),
    ensures
        unique_keys(t),
        forall|k: Seq<char>| #[trigger] has_key(t, k) == (has_key(s, k) || k == t[s.len() as int].0@),
        forall|k: Seq<char>|
            has_key(s, k) ==> #[trigger] t[key_index(t, k)] == s[key_index(s, k)],
        key_index(t, t[s.len() as int].0@) == s.len(),
{
    let n = s.len() as int;
    assert forall|i: int, j: int| 0 <= i < j < t.len() implies t[i].0@ != t[j].0@ by {
        if j < n {
            assert(t[i].0@ == s[i].0@ && t[j].0@ == s[j].0@);
        } else {
            assert(t[i].0@ == s[i].0@);
            assert(!has_key(s, t[n].0@));
            assert(s[i].0@ != t[n].0@);
        }
    }
    assert forall|k: Seq<char>| #[trigger] has_key(t, k) == (has_key(s, k) || k == t[n].0@) by {
        if has_key(t, k) {
            let j = choose|j: int| 0 <= j < t.len() && t[j].0@ == k;
            if j < n {
                assert(s[j].0@ == k);
            }
        }
        if has_key(s, k) {
            let j = choose|j: int| 0 <= j < s.len() && s[j].0@ == k;
            assert(t[j].0@ == k);
        }
        if k == t[n].0@ {
            assert(t[n].0@ == k);
        }
    }
    assert forall|k: Seq<char>|
        has_key(s, k) implies #[trigger] t[key_index(t, k)] == s[key_index(s, k)] by {
        let j = key_index(s, k);
        assert(0 <= j < s.len() && s[j].0@ == k);
        assert(t[j].0@ == k);
        assert(has_key(t, k));
        let j2 = key_index(t, k);
        assert(0 <= j2 < t.len() && t[j2].0@ == k);
        if j2 == n {
            assert(has_key(s, t[n].0@));
        }
        assert(j2 == j);
    }
    assert(t[n].0@ == t[n].0@);
    assert(has_key(t, t[n].0@));
    let j = key_index(t, t[n].0@);
    assert(0 <= j < t.len() && t[j].0@ == t[n].0@);
    if j < n {
        assert(has_key(s, t[n].0@));
    }
}

/// After removing the entry at `i`, membership shrinks by its key alone and
/// other values stay where they were.
proof fn lemma_remove_view<V>(s: Seq<(String, V)>, t: Seq<(String, V)>, i: int)
    requires
        unique_keys(s),
        0 <= i < s.len(),
        t == s.remove(i),
    ensures
        unique_keys(t),
        forall|k: Seq<char>| #[trigger] has_key(t, k) == (has_key(s, k) && k != s[i].0@),
        forall|k: Seq<char>|
            has_key(t, k) ==> #[trigger] t[key_index(t, k)] == s[key_index(s, k)],
{
    let n = s.len() as int;
    assert forall|a: int, b: int| 0 <= a < b < t.len() implies t[a].0@ != t[b].0@ by {
        let a2 = if a < i { a } else { a + 1 };
        let b2 = if b < i { b } else { b + 1 };
        assert(t[a] == s[a2] && t[b] == s[b2]);
    }
    assert forall|k: Seq<char>| #[trigger] has_key(t, k) == (has_key(s, k) && k != s[i].0@) by {
        if has_key(t, k) {
            let j = choose|j: int| 0 <= j < t.len() && t[j].0@ == k;
            let j2 = if j < i { j } else { j + 1 };
            assert(s[j2].0@ == k);
            assert(j2 != i);
            assert(k != s[i].0@);
        }
        if has_key(s, k) && k != s[i].0@ {
            let j = choose|j: int| 0 <= j < s.len() && s[j].0@ == k;
            assert(j != i);
            if j < i {
                assert(t[j].0@ == k);
            } else {
                assert(t[j - 1].0@ == k);
            }
        }
    }
    assert forall|k: Seq<char>|
        has_key(t, k) implies #[trigger] t[key_index(t, k)] == s[key_index(s, k)] by {
        let j = key_index(t, k);
        assert(0 <= j < t.len() && t[j].0@ == k);
        let j2 = if j < i { j } else { j + 1 };
        assert(t[j] == s[j2] && s[j2].0@ == k);
        let j3 = key_index(s, k);
        assert(0 <= j3 < s.len() && s[j3].0@ == k);
        assert(j3 == j2);
    }
}

} // verus!
