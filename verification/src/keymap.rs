//! A small map keyed by strings, kept as a list of distinct keys.
use vstd::prelude::*;

verus! {

/// A map from strings to values. Its contents are the map `m@`: each key's
/// characters to its value.
pub struct KeyedMap<T> {
    entries: Vec<(String, T)>,
}

/// The keys of `s` are pairwise distinct.
pub open spec fn distinct_keys<T>(s: Seq<(String, T)>) -> bool {
    forall|i: int, j: int| 0 <= i < s.len() && 0 <= j < s.len() && i != j ==> s[i].0@ != s[j].0@
}

/// Some entry of `s` has the key `k`.
pub open spec fn has_key<T>(s: Seq<(String, T)>, k: Seq<char>) -> bool {
    exists|i: int| 0 <= i < s.len() && s[i].0@ == k
}

/// The position of key `k` in `s`.
pub open spec fn key_index<T>(s: Seq<(String, T)>, k: Seq<char>) -> int {
    choose|i: int| 0 <= i < s.len() && s[i].0@ == k
}

/// The map that a list of entries with distinct keys stands for.
pub open spec fn map_of<T>(s: Seq<(String, T)>) -> Map<Seq<char>, T> {
    Map::new(|k: Seq<char>| has_key(s, k), |k: Seq<char>| s[key_index(s, k)].1)
}

proof fn lemma_key_index<T>(s: Seq<(String, T)>, i: int)
    requires
        distinct_keys(s),
        0 <= i < s.len(),
    ensures
        key_index(s, s[i].0@) == i,
        map_of(s).dom().contains(s[i].0@),
        map_of(s)[s[i].0@] == s[i].1,
{
    let k = s[i].0@;
    assert(has_key(s, k));
    let j = key_index(s, k);
    assert(0 <= j < s.len() && s[j].0@ == k);
}

/// The map of a list of entries with distinct keys is the map of all but the
/// last entry, with the last entry added.
pub proof fn lemma_map_of_last<T>(s: Seq<(String, T)>)
    requires
        distinct_keys(s),
        s.len() > 0,
    ensures
        map_of(s) == map_of(s.drop_last()).insert(s.last().0@, s.last().1),
{
    let t = s.drop_last();
    let n = s.len() - 1;
    assert(distinct_keys(t));
    let m = map_of(t).insert(s.last().0@, s.last().1);
    assert forall|k: Seq<char>| #[trigger] map_of(s).dom().contains(k) <==> m.dom().contains(k) by {
        if has_key(s, k) {
            let i = choose|i: int| 0 <= i < s.len() && s[i].0@ == k;
            if i < n {
                assert(t[i].0@ == k);
            }
        }
        if has_key(t, k) {
            let i = choose|i: int| 0 <= i < t.len() && t[i].0@ == k;
            assert(s[i].0@ == k);
        }
        if k == s.last().0@ {
            assert(s[n].0@ == k);
        }
    }
    assert forall|k: Seq<char>| #[trigger] map_of(s).dom().contains(k) implies map_of(s)[k] == m[k] by {
        let i = choose|i: int| 0 <= i < s.len() && s[i].0@ == k;
        lemma_key_index(s, i);
        if i < n {
            assert(t[i] == s[i]);
            lemma_key_index(t, i);
        }
    }
    assert(map_of(s) =~= m);
}

impl<T> View for KeyedMap<T> {
    type V = Map<Seq<char>, T>;

    closed spec fn view(&self) -> Map<Seq<char>, T> {
        map_of(self.entries@)
    }
}

impl<T> KeyedMap<T> {
    /// The entries hold distinct keys.
    pub closed spec fn wf(&self) -> bool {
        distinct_keys(self.entries@)
    }

    /// The entries in the order the map keeps them.
    pub closed spec fn entry_seq(&self) -> Seq<(String, T)> {
        self.entries@
    }

    /// What the entries say of the map: their keys are distinct and are its
    /// keys, each with its value.
    pub proof fn lemma_entries(&self)
        requires
            self.wf(),
        ensures
            distinct_keys(self.entry_seq()),
            forall|i: int|
                0 <= i < self.entry_seq().len() ==> #[trigger] self@.dom().contains(
                    self.entry_seq()[i].0@,
                ) && self@[self.entry_seq()[i].0@] == self.entry_seq()[i].1,
            forall|k: Seq<char>| #[trigger]
                self@.dom().contains(k) ==> has_key(self.entry_seq(), k),
            self@ == map_of(self.entry_seq()),
    {
        assert forall|i: int| 0 <= i < self.entry_seq().len() implies #[trigger] self@.dom().contains(
            self.entry_seq()[i].0@,
        ) && self@[self.entry_seq()[i].0@] == self.entry_seq()[i].1 by {
            lemma_key_index(self.entries@, i);
        }
    }

    /// An empty map.
    pub fn new() -> (r: Self)
        ensures
            r.wf(),
            r@ == Map::<Seq<char>, T>::empty(),
            r.entry_seq().len() == 0,
    {
        let r = KeyedMap { entries: Vec::new() };
        assert(r@ =~= Map::<Seq<char>, T>::empty());
        r
    }

    /// The entries, for saving the map.
    pub fn entries(&self) -> (r: &Vec<(String, T)>)
        ensures
            r@ == self.entry_seq(),
    {
        &self.entries
    }

    fn find(&self, key: &String) -> (r: Option<usize>)
        requires
            self.wf(),
        ensures
            match r {
                Some(i) => i < self.entries@.len() && self.entries@[i as int].0@ == key@,
                None => !has_key(self.entries@, key@),
            },
    {
        let mut i: usize = 0;
        while i < self.entries.len()
            invariant
                i <= self.entries@.len(),
                forall|j: int| 0 <= j < i ==> self.entries@[j].0@ != key@,
            decreases self.entries@.len() - i,
        {
            if self.entries[i].0 == *key {
                return Some(i);
            }
            i = i + 1;
        }
        None
    }

    /// Whether `key` has a value.
    pub fn contains_key(&self, key: &String) -> (r: bool)
        requires
            self.wf(),
        ensures
            r == self@.dom().contains(key@),
    {
        self.find(key).is_some()
    }

    /// The value of `key`, if any.
    pub fn get(&self, key: &String) -> (r: Option<&T>)
        requires
            self.wf(),
        ensures
            match r {
                Some(v) => self@.dom().contains(key@) && *v == self@[key@],
                None => !self@.dom().contains(key@),
            },
    {
        match self.find(key) {
            Some(i) => {
                proof {
                    lemma_key_index(self.entries@, i as int);
                }
                Some(&self.entries[i].1)
            },
            None => None,
        }
    }

    /// Sets the value of `key`, replacing any earlier one in place.
    pub fn insert(&mut self, key: String, value: T)
        requires
            old(self).wf(),
        ensures
            final(self).wf(),
            final(self)@ == old(self)@.insert(key@, value),
    {
        let ghost k = key@;
        match self.find(&key) {
            Some(i) => {
                let ghost old_entries = self.entries@;
                self.entries.set(i, (key, value));
                proof {
                    let s = self.entries@;
                    assert(s == old_entries.update(i as int, s[i as int]));
                    assert forall|a: int, b: int|
                        0 <= a < s.len() && 0 <= b < s.len() && a != b implies s[a].0@
                        != s[b].0@ by {
                        if a != i && b != i {
                            assert(s[a] == old_entries[a] && s[b] == old_entries[b]);
                        } else if a == i {
                            assert(s[b] == old_entries[b]);
                        } else {
                            assert(s[a] == old_entries[a]);
                        }
                    }
                    assert forall|kk: Seq<char>| has_key(s, kk) == (has_key(old_entries, kk)
                        || kk == k) by {
                        if has_key(s, kk) {
                            let j = choose|j: int| 0 <= j < s.len() && s[j].0@ == kk;
                            if j != i {
                                assert(old_entries[j].0@ == kk);
                            }
                        }
                        if has_key(old_entries, kk) {
                            let j = choose|j: int| 0 <= j < old_entries.len() && old_entries[j].0@ == kk;
                            if j != i {
                                assert(s[j].0@ == kk);
                            } else {
                                assert(s[i as int].0@ == kk);
                            }
                        }
                        if kk == k {
                            assert(s[i as int].0@ == kk);
                        }
                    }
                    assert forall|kk: Seq<char>| has_key(s, kk) implies map_of(s)[kk] == map_of(
                        old_entries,
                    ).insert(k, value)[kk] by {
                        let j = choose|j: int| 0 <= j < s.len() && s[j].0@ == kk;
                        lemma_key_index(s, j);
                        if j != i {
                            assert(old_entries[j] == s[j]);
                            lemma_key_index(old_entries, j);
                        }
                    }
                    assert(map_of(s) =~= map_of(old_entries).insert(k, value));
                }
            },
            None => {
                let ghost old_entries = self.entries@;
                self.entries.push((key, value));
                proof {
                    let s = self.entries@;
                    let n = old_entries.len() as int;
                    assert(s == old_entries.push((s[n].0, value)));
                    assert forall|a: int, b: int|
                        0 <= a < s.len() && 0 <= b < s.len() && a != b implies s[a].0@
                        != s[b].0@ by {
                        if a < n && b < n {
                            assert(s[a] == old_entries[a] && s[b] == old_entries[b]);
                        } else if a == n {
                            assert(s[b] == old_entries[b]);
                            assert(!(0 <= b < old_entries.len() && old_entries[b].0@ == k));
                        } else {
                            assert(s[a] == old_entries[a]);
                            assert(!(0 <= a < old_entries.len() && old_entries[a].0@ == k));
                        }
                    }
                    assert forall|kk: Seq<char>| has_key(s, kk) == (has_key(old_entries, kk)
                        || kk == k) by {
                        if has_key(s, kk) {
                            let j = choose|j: int| 0 <= j < s.len() && s[j].0@ == kk;
                            if j < n {
                                assert(old_entries[j].0@ == kk);
                            }
                        }
                        if has_key(old_entries, kk) {
                            let j = choose|j: int| 0 <= j < old_entries.len() && old_entries[j].0@ == kk;
                            assert(s[j].0@ == kk);
                        }
                        if kk == k {
                            assert(s[n].0@ == kk);
                        }
                    }
                    assert forall|kk: Seq<char>| has_key(s, kk) implies map_of(s)[kk] == map_of(
                        old_entries,
                    ).insert(k, value)[kk] by {
                        let j = choose|j: int| 0 <= j < s.len() && s[j].0@ == kk;
                        lemma_key_index(s, j);
                        if j < n {
                            assert(old_entries[j] == s[j]);
                            lemma_key_index(old_entries, j);
                        }
                    }
                    assert(map_of(s) =~= map_of(old_entries).insert(k, value));
                }
            },
        }
    }

    /// Drops `key` and its value, if present.
    pub fn remove(&mut self, key: &String)
        requires
            old(self).wf(),
        ensures
            final(self).wf(),
            final(self)@ == old(self)@.remove(key@),
    {
        let ghost k = key@;
        match self.find(key) {
            Some(i) => {
                let ghost old_entries = self.entries@;
                let _gone = self.entries.remove(i);
                proof {
                    let s = self.entries@;
                    assert(s == old_entries.remove(i as int));
                    assert forall|a: int| 0 <= a < s.len() implies #[trigger] s[a] == (if a < i {
                        old_entries[a]
                    } else {
                        old_entries[a + 1]
                    }) by {}
                    assert forall|a: int, b: int|
                        0 <= a < s.len() && 0 <= b < s.len() && a != b implies s[a].0@
                        != s[b].0@ by {
                        let a2 = if a < i { a } else { a + 1 };
                        let b2 = if b < i { b } else { b + 1 };
                        assert(s[a] == old_entries[a2]);
                        assert(s[b] == old_entries[b2]);
                    }
                    assert forall|kk: Seq<char>| has_key(s, kk) == (has_key(old_entries, kk)
                        && kk != k) by {
                        if has_key(s, kk) {
                            let j = choose|j: int| 0 <= j < s.len() && s[j].0@ == kk;
                            let j2 = if j < i { j } else { j + 1 };
                            assert(s[j] == old_entries[j2]);
                            assert(old_entries[j2].0@ == kk);
                        }
                        if has_key(old_entries, kk) && kk != k {
                            let j = choose|j: int| 0 <= j < old_entries.len() && old_entries[j].0@ == kk;
                            assert(j != i);
                            let j2 = if j < i { j } else { j - 1 };
                            assert(s[j2] == old_entries[j]);
                        }
                    }
                    assert forall|kk: Seq<char>| has_key(s, kk) implies map_of(s)[kk] == map_of(
                        old_entries,
                    ).remove(k)[kk] by {
                        let j = choose|j: int| 0 <= j < s.len() && s[j].0@ == kk;
                        lemma_key_index(s, j);
                        let j2 = if j < i { j } else { j + 1 };
                        assert(s[j] == old_entries[j2]);
                        lemma_key_index(old_entries, j2);
                    }
                    assert(map_of(s) =~= map_of(old_entries).remove(k));
                }
            },
            None => {
                assert(self@ =~= self@.remove(k));
            },
        }
    }
}

} // verus!
