//! A small map from strings to strings, kept as a list of distinct keys.

use vstd::prelude::*;
use crate::text::chars_of;
use crate::classifier::chars_eq;

verus! {

#[derive(Debug)]
pub struct StringMap {
    entries: Vec<(String, String)>,
}

/// No key occurs twice.
pub open spec fn keys_distinct(s: Seq<(String, String)>) -> bool {
    forall|i: int, j: int| 0 <= i < j < s.len() ==> (#[trigger] s[i]).0@ != (#[trigger] s[j]).0@
}

pub open spec fn has_key(s: Seq<(String, String)>, k: Seq<char>) -> bool {
    exists|i: int| 0 <= i < s.len() && (#[trigger] s[i]).0@ == k
}

pub open spec fn entries_map(s: Seq<(String, String)>) -> Map<Seq<char>, Seq<char>> {
    Map::new(
        |k: Seq<char>| has_key(s, k),
        |k: Seq<char>| s[choose|i: int| 0 <= i < s.len() && (#[trigger] s[i]).0@ == k].1@,
    )
}

proof fn lemma_entry_value(s: Seq<(String, String)>, i: int)
    requires
        keys_distinct(s),
        0 <= i < s.len(),
    ensures
        entries_map(s).dom().contains(s[i].0@),
        entries_map(s)[s[i].0@] == s[i].1@,
{
    let k = s[i].0@;
    assert(has_key(s, k));
    let j = choose|j: int| 0 <= j < s.len() && (#[trigger] s[j]).0@ == k;
    if j != i {
        if j < i {
            assert(s[j].0@ != s[i].0@);
        } else {
            assert(s[i].0@ != s[j].0@);
        }
    }
}

impl View for StringMap {
    type V = Map<Seq<char>, Seq<char>>;

    closed spec fn view(&self) -> Map<Seq<char>, Seq<char>> {
        entries_map(self.entries@)
    }
}

impl StringMap {
    /// The map holds each key once.
    pub closed spec fn wf(&self) -> bool {
        keys_distinct(self.entries@)
    }

    pub fn new() -> (m: Self)
        ensures
            m.wf(),
            m@ == Map::<Seq<char>, Seq<char>>::empty(),
    {
        let m = StringMap { entries: Vec::new() };
        assert(m@ =~= Map::<Seq<char>, Seq<char>>::empty());
        m
    }

    fn position(&self, key: &str) -> (r: Option<usize>)
        ensures
            match r {
                Some(i) => i < self.entries@.len() && self.entries@[i as int].0@ == key@,
                None => !has_key(self.entries@, key@),
            },
    {
        let mut i: usize = 0;
        while i < self.entries.len()
            invariant
                i <= self.entries@.len(),
                forall|j: int| 0 <= j < i ==> (#[trigger] self.entries@[j]).0@ != key@,
            decreases self.entries@.len() - i,
        {
            let kv = chars_of(self.entries[i].0.as_str());
            if chars_eq(kv.as_slice(), key) {
                return Some(i);
            }
            i = i + 1;
        }
        None
    }

    /// Sets `key` to `value`, replacing what it held.
    pub fn insert(&mut self, key: &str, value: String)
        requires
            old(self).wf(),
        ensures
            final(self).wf(),
            final(self)@ == old(self)@.insert(key@, value@),
    {
        let ghost before = self.entries@;
        proof {
            assert forall|i: int| 0 <= i < before.len() implies #[trigger] entries_map(before)[before[i].0@]
                == before[i].1@ by {
                lemma_entry_value(before, i);
            }
        }
        match self.position(key) {
            Some(i) => {
                let k = self.entries[i].0.clone();
                self.entries.set(i, (k, value));
                proof {
                    let after = self.entries@;
                    assert(keys_distinct(after));
                    assert forall|j: int| 0 <= j < after.len() implies #[trigger] entries_map(after)[after[j].0@]
                        == after[j].1@ by {
                        lemma_entry_value(after, j);
                    }
                    assert forall|k2: Seq<char>| #[trigger] has_key(after, k2) == has_key(before, k2) by {
                        if has_key(before, k2) {
                            let j = choose|j: int| 0 <= j < before.len() && (#[trigger] before[j]).0@ == k2;
                            assert(after[j].0@ == k2);
                        }
                        if has_key(after, k2) {
                            let j = choose|j: int| 0 <= j < after.len() && (#[trigger] after[j]).0@ == k2;
                            assert(before[j].0@ == k2);
                        }
                    }
                    assert forall|k2: Seq<char>| #[trigger] entries_map(after).dom().contains(k2) implies
                        entries_map(after)[k2] == before_map_insert(before, key@, value@)[k2] by {
                        let j = choose|j: int| 0 <= j < after.len() && (#[trigger] after[j]).0@ == k2;
                        lemma_entry_value(after, j);
                        if j != i as int {
                            lemma_entry_value(before, j);
                        }
                    }
                    assert(entries_map(after) =~= entries_map(before).insert(key@, value@));
                }
            },
            None => {
                self.entries.push((crate::text::to_owned_string(key), value));
                proof {
                    let after = self.entries@;
                    assert(keys_distinct(after));
                    assert forall|k2: Seq<char>| #[trigger] has_key(after, k2) == (has_key(before, k2) || k2 == key@) by {
                        if has_key(before, k2) {
                            let j = choose|j: int| 0 <= j < before.len() && (#[trigger] before[j]).0@ == k2;
                            assert(after[j].0@ == k2);
                        }
                        if k2 == key@ {
                            assert(after[before.len() as int].0@ == k2);
                        }
                        if has_key(after, k2) && k2 != key@ {
                            let j = choose|j: int| 0 <= j < after.len() && (#[trigger] after[j]).0@ == k2;
                            assert(j < before.len());
                            assert(before[j].0@ == k2);
                        }
                    }
                    assert forall|k2: Seq<char>| #[trigger] entries_map(after).dom().contains(k2) implies
                        entries_map(after)[k2] == before_map_insert(before, key@, value@)[k2] by {
                        let j = choose|j: int| 0 <= j < after.len() && (#[trigger] after[j]).0@ == k2;
                        lemma_entry_value(after, j);
                        if j < before.len() {
                            lemma_entry_value(before, j);
                        }
                    }
                    assert(entries_map(after) =~= entries_map(before).insert(key@, value@));
                }
            },
        }
    }

    /// The value held for `key`.
    pub fn get(&self, key: &str) -> (r: Option<&String>)
        requires
            self.wf(),
        ensures
            match r {
                Some(v) => self@.contains_key(key@) && self@[key@] == v@,
                None => !self@.contains_key(key@),
            },
    {
        match self.position(key) {
            Some(i) => {
                proof {
                    lemma_entry_value(self.entries@, i as int);
                }
                Some(&self.entries[i].1)
            },
            None => None,
        }
    }

    /// A copy of the map.
    pub fn copy(&self) -> (r: Self)
        requires
            self.wf(),
        ensures
            r.wf(),
            r@ == self@,
    {
        let mut entries: Vec<(String, String)> = Vec::new();
        let mut i: usize = 0;
        while i < self.entries.len()
            invariant
                i <= self.entries@.len(),
                entries@ == self.entries@.take(i as int),
            decreases self.entries@.len() - i,
        {
            let k = self.entries[i].0.clone();
            let v = self.entries[i].1.clone();
            entries.push((k, v));
            i = i + 1;
            assert(entries@ =~= self.entries@.take(i as int));
        }
        assert(entries@ =~= self.entries@);
        StringMap { entries }
    }

    /// The entries of the map, each key once.
    pub fn to_pairs(&self) -> (r: Vec<(String, String)>)
        requires
            self.wf(),
        ensures
            keys_distinct(r@),
            entries_map(r@) == self@,
    {
        let c = self.copy();
        c.entries
    }

    /// How many keys the map holds.
    pub fn len(&self) -> (n: usize)
        requires
            self.wf(),
        ensures
            n == self@.dom().len(),
    {
        proof {
            lemma_dom_len(self.entries@);
        }
        self.entries.len()
    }
}

spec fn before_map_insert(before: Seq<(String, String)>, k: Seq<char>, v: Seq<char>) -> Map<Seq<char>, Seq<char>> {
    entries_map(before).insert(k, v)
}

proof fn lemma_dom_len(s: Seq<(String, String)>)
    requires
        keys_distinct(s),
    ensures
        entries_map(s).dom().finite(),
        entries_map(s).dom().len() == s.len(),
    decreases s.len(),
{
    let d = entries_map(s).dom();
    if s.len() == 0 {
        assert(d =~= Set::<Seq<char>>::empty());
    } else {
        let t = s.drop_last();
        assert(keys_distinct(t));
        lemma_dom_len(t);
        let k = s.last().0@;
        assert forall|k2: Seq<char>| #[trigger] d.contains(k2) == entries_map(t).dom().insert(k).contains(k2) by {
            if has_key(s, k2) && k2 != k {
                let j = choose|j: int| 0 <= j < s.len() && (#[trigger] s[j]).0@ == k2;
                assert(j < t.len());
                assert(t[j].0@ == k2);
            }
            if has_key(t, k2) {
                let j = choose|j: int| 0 <= j < t.len() && (#[trigger] t[j]).0@ == k2;
                assert(s[j].0@ == k2);
            }
            if k2 == k {
                assert(s[s.len() - 1].0@ == k2);
            }
        }
        assert(d =~= entries_map(t).dom().insert(k));
        assert(!entries_map(t).dom().contains(k)) by {
            if has_key(t, k) {
                let j = choose|j: int| 0 <= j < t.len() && (#[trigger] t[j]).0@ == k;
                assert(s[j].0@ == s[s.len() - 1].0@);
            }
        }
    }
}

} // verus!
