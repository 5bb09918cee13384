//! A small keyed table: string keys, each present at most once, seen as a
//! `Map` from key text to value.
use vstd::prelude::*;
use crate::text::same_text;

verus! {

/// Entries keyed by text; a key occurs at most once.
#[derive(Debug)]
pub struct Table<T> {
    entries: Vec<(String, T)>,
}

/// No key occurs twice in `entries`.
pub open spec fn keys_distinct<T>(entries: Seq<(String, T)>) -> bool {
    forall|i: int, j: int|
        0 <= i < entries.len() && 0 <= j < entries.len() && i != j ==> #[trigger] entries[i].0@
            != #[trigger] entries[j].0@
}

/// `k` is the key at some position of `entries`.
pub open spec fn has_key<T>(entries: Seq<(String, T)>, k: Seq<char>) -> bool {
    exists|i: int| 0 <= i < entries.len() && #[trigger] entries[i].0@ == k
}

/// The position of key `k` in `entries` (meaningful where `has_key`).
pub open spec fn position_of<T>(entries: Seq<(String, T)>, k: Seq<char>) -> int {
    choose|i: int| 0 <= i < entries.len() && #[trigger] entries[i].0@ == k
}

/// The map that a sequence of entries with distinct keys stands for.
pub open spec fn entries_map<T>(entries: Seq<(String, T)>) -> Map<Seq<char>, T> {
    Map::new(|k: Seq<char>| has_key(entries, k), |k: Seq<char>| entries[position_of(entries, k)].1)
}

proof fn lemma_position_unique<T>(entries: Seq<(String, T)>, i: int)
    requires
        keys_distinct(entries),
        0 <= i < entries.len(),
    ensures
        has_key(entries, entries[i].0@),
        position_of(entries, entries[i].0@) == i,
        entries_map(entries).contains_key(entries[i].0@),
        entries_map(entries)[entries[i].0@] == entries[i].1,
{
    let k = entries[i].0@;
    assert(has_key(entries, k));
    let p = position_of(entries, k);
    if p != i {
        assert(entries[p].0@ == k);
    }
}

/// With distinct keys, the map has as many keys as there are entries.
proof fn lemma_entries_map_len<T>(entries: Seq<(String, T)>)
    requires
        keys_distinct(entries),
    ensures
        entries_map(entries).dom().finite(),
        entries_map(entries).len() == entries.len(),
    decreases entries.len(),
{
    if entries.len() == 0 {
        assert(entries_map(entries).dom() =~= Set::<Seq<char>>::empty());
    } else {
        let rest = entries.drop_last();
        let k = entries.last().0@;
        assert(keys_distinct(rest)) by {
            assert forall|i: int, j: int|
                0 <= i < rest.len() && 0 <= j < rest.len() && i != j implies #[trigger] rest[i].0@
                != #[trigger] rest[j].0@ by {
                assert(entries[i].0@ != entries[j].0@);
            }
        }
        lemma_entries_map_len(rest);
        assert forall|x: Seq<char>| #[trigger] entries_map(entries).dom().contains(x) == entries_map(rest).dom().insert(k).contains(x) by {
            if has_key(entries, x) {
                let p = position_of(entries, x);
                if p < rest.len() {
                    assert(rest[p].0@ == x);
                }
            }
            if has_key(rest, x) {
                let p = position_of(rest, x);
                assert(entries[p].0@ == x);
            }
            if x == k {
                assert(entries[entries.len() - 1].0@ == x);
            }
        }
        assert(entries_map(entries).dom() =~= entries_map(rest).dom().insert(k));
        if has_key(rest, k) {
            let p = position_of(rest, k);
            assert(entries[p].0@ == entries[entries.len() - 1].0@);
        }
    }
}

impl<T> Table<T> {
    #[verifier::type_invariant]
    closed spec fn distinct(self) -> bool {
        keys_distinct(self.entries@)
    }

    /// Position of `key` among the entries.
    fn find(&self, key: &str) -> (r: Option<usize>)
        ensures
            match r {
                Some(i) => i < self.entries@.len() && self.entries@[i as int].0@ == key@,
                None => !has_key(self.entries@, key@),
            },
    {
        let n = self.entries.len();
        let mut i: usize = 0;
        while i < n
            invariant
                n == self.entries@.len(),
                i <= n,
                forall|j: int| 0 <= j < i ==> self.entries@[j].0@ != key@,
            decreases n - i,
        {
            if same_text(self.entries[i].0.as_str(), key) {
                return Some(i);
            }
            i = i + 1;
        }
        None
    }

    /// An empty table.
    pub fn new() -> (r: Self)
        ensures
            r@ == Map::<Seq<char>, T>::empty(),
    {
        let r = Table { entries: Vec::new() };
        assert(r@ =~= Map::<Seq<char>, T>::empty());
        r
    }

    /// Whether `key` has an entry.
    pub fn contains_key(&self, key: &str) -> (r: bool)
        ensures
            r == self@.contains_key(key@),
    {
        self.find(key).is_some()
    }

    /// The value stored under `key`, if any.
    pub fn get(&self, key: &str) -> (r: Option<&T>)
        ensures
            r is Some == self@.contains_key(key@),
            r matches Some(v) ==> *v == self@[key@],
    {
        proof {
            use_type_invariant(self);
        }
        match self.find(key) {
            Some(i) => {
                proof {
                    lemma_position_unique(self.entries@, i as int);
                }
                Some(&self.entries[i].1)
            },
            None => None,
        }
    }

    /// Stores `value` under `key`, replacing what was stored there.
    pub fn insert(&mut self, key: String, value: T)
        ensures
            final(self)@ == old(self)@.insert(key@, value),
    {
        proof {
            use_type_invariant(&*self);
        }
        let found = self.find(key.as_str());
        let mut entries: Vec<(String, T)> = Vec::new();
        std::mem::swap(&mut entries, &mut self.entries);
        let ghost before = entries@;
        let ghost k = key@;
        match found {
            Some(i) => {
                entries.set(i, (key, value));
                proof {
                    let after = entries@;
                    assert(keys_distinct(after)) by {
                        assert forall|a: int, b: int|
                            0 <= a < after.len() && 0 <= b < after.len() && a != b implies #[trigger] after[a].0@
                            != #[trigger] after[b].0@ by {
                            assert(before[a].0@ != before[b].0@);
                        }
                    }
                    assert forall|x: Seq<char>| #[trigger] entries_map(after).contains_key(x) == entries_map(before).insert(k, value).contains_key(x) by {
                        if has_key(before, x) {
                            let p = position_of(before, x);
                            assert(after[p].0@ == x);
                        }
                        if has_key(after, x) {
                            let p = position_of(after, x);
                            assert(before[p].0@ == x || p == i);
                        }
                    }
                    assert forall|x: Seq<char>| #[trigger] entries_map(after).contains_key(x) implies entries_map(after)[x] == entries_map(before).insert(k, value)[x] by {
                        let p = position_of(after, x);
                        lemma_position_unique(after, p);
                        if x != k {
                            lemma_position_unique(before, p);
                        } else {
                            lemma_position_unique(after, i as int);
                        }
                    }
                    assert(entries_map(after) =~= entries_map(before).insert(k, value));
                }
            },
            None => {
                entries.push((key, value));
                proof {
                    let after = entries@;
                    let last = before.len() as int;
                    assert(keys_distinct(after)) by {
                        assert forall|a: int, b: int|
                            0 <= a < after.len() && 0 <= b < after.len() && a != b implies #[trigger] after[a].0@
                            != #[trigger] after[b].0@ by {
                            if a < last && b < last {
                                assert(before[a].0@ != before[b].0@);
                            } else if a < last {
                                assert(before[a].0@ == after[a].0@);
                            } else {
                                assert(before[b].0@ == after[b].0@);
                            }
                        }
                    }
                    assert forall|x: Seq<char>| #[trigger] entries_map(after).contains_key(x) == entries_map(before).insert(k, value).contains_key(x) by {
                        if has_key(before, x) {
                            let p = position_of(before, x);
                            assert(after[p].0@ == x);
                        }
                        if has_key(after, x) {
                            let p = position_of(after, x);
                            if p < last {
                                assert(before[p].0@ == x);
                            }
                        }
                        if x == k {
                            assert(after[last].0@ == x);
                        }
                    }
                    assert forall|x: Seq<char>| #[trigger] entries_map(after).contains_key(x) implies entries_map(after)[x] == entries_map(before).insert(k, value)[x] by {
                        let p = position_of(after, x);
                        lemma_position_unique(after, p);
                        if p < last {
                            assert(before[p] == after[p]);
                            lemma_position_unique(before, p);
                        }
                    }
                    assert(entries_map(after) =~= entries_map(before).insert(k, value));
                }
            },
        }
        self.entries = entries;
    }

    /// Removes the entry of `key`, handing back its value if there was one.
    pub fn remove(&mut self, key: &str) -> (r: Option<T>)
        ensures
            final(self)@ == old(self)@.remove(key@),
            r is Some == old(self)@.contains_key(key@),
            r matches Some(v) ==> v == old(self)@[key@],
    {
        proof {
            use_type_invariant(&*self);
        }
        match self.find(key) {
            Some(i) => {
                let mut entries: Vec<(String, T)> = Vec::new();
                std::mem::swap(&mut entries, &mut self.entries);
                let ghost before = entries@;
                let ghost k = key@;
                proof {
                    lemma_position_unique(before, i as int);
                }
                let (_, v) = entries.remove(i);
                proof {
                    let after = entries@;
                    assert forall|a: int| 0 <= a < after.len() implies #[trigger] after[a] == before[if a < i { a } else { a + 1 }] by {}
                    assert(keys_distinct(after)) by {
                        assert forall|a: int, b: int|
                            0 <= a < after.len() && 0 <= b < after.len() && a != b implies #[trigger] after[a].0@
                            != #[trigger] after[b].0@ by {
                            let a2 = if a < i { a } else { a + 1 };
                            let b2 = if b < i { b } else { b + 1 };
                            assert(before[a2].0@ != before[b2].0@);
                        }
                    }
                    assert forall|x: Seq<char>| #[trigger] entries_map(after).contains_key(x) == entries_map(before).remove(k).contains_key(x) by {
                        if has_key(before, x) && x != k {
                            let p = position_of(before, x);
                            if p < i {
                                assert(after[p].0@ == x);
                            } else {
                                assert(p != i);
                                assert(after[p - 1].0@ == x);
                            }
                        }
                        if has_key(after, x) {
                            let p = position_of(after, x);
                            let p2 = if p < i { p } else { p + 1 };
                            assert(before[p2].0@ == x);
                            assert(p2 != i);
                        }
                    }
                    assert forall|x: Seq<char>| #[trigger] entries_map(after).contains_key(x) implies entries_map(after)[x] == entries_map(before).remove(k)[x] by {
                        let p = position_of(after, x);
                        lemma_position_unique(after, p);
                        let p2 = if p < i { p } else { p + 1 };
                        lemma_position_unique(before, p2);
                    }
                    assert(entries_map(after) =~= entries_map(before).remove(k));
                }
                self.entries = entries;
                Some(v)
            },
            None => {
                assert(self@.remove(key@) =~= self@);
                None
            },
        }
    }

    /// Stores `fresh` under `key` unless `key` already has an entry, which
    /// then stays as it was.
    pub fn ensure_entry(&mut self, key: String, fresh: T)
        ensures
            old(self)@.contains_key(key@) ==> final(self)@ == old(self)@,
            !old(self)@.contains_key(key@) ==> final(self)@ == old(self)@.insert(key@, fresh),
    {
        if !self.contains_key(key.as_str()) {
            self.insert(key, fresh);
        }
    }

    /// The keys of the table, each once.
    pub fn keys(&self) -> (r: Vec<String>)
        ensures
            r@.len() == self@.len(),
            forall|i: int| 0 <= i < r@.len() ==> self@.contains_key(#[trigger] r@[i]@),
            forall|x: Seq<char>| #[trigger] self@.contains_key(x) ==> exists|i: int| 0 <= i < r@.len() && #[trigger] r@[i]@ == x,
            forall|i: int, j: int| 0 <= i < r@.len() && 0 <= j < r@.len() && i != j ==> #[trigger] r@[i]@ != #[trigger] r@[j]@,
    {
        proof {
            use_type_invariant(self);
        }
        let n = self.entries.len();
        let mut out: Vec<String> = Vec::new();
        let mut i: usize = 0;
        while i < n
            invariant
                n == self.entries@.len(),
                i <= n,
                keys_distinct(self.entries@),
                out@.len() == i,
                forall|j: int| 0 <= j < i ==> #[trigger] out@[j]@ == self.entries@[j].0@,
            decreases n - i,
        {
            out.push(self.entries[i].0.clone());
            i = i + 1;
        }
        proof {
            lemma_entries_map_len(self.entries@);
            assert forall|j: int| 0 <= j < out@.len() implies self@.contains_key(#[trigger] out@[j]@) by {
                lemma_position_unique(self.entries@, j);
            }
            assert forall|x: Seq<char>| #[trigger] self@.contains_key(x) implies exists|j: int| 0 <= j < out@.len() && #[trigger] out@[j]@ == x by {
                let p = position_of(self.entries@, x);
                assert(out@[p]@ == x);
            }
            assert forall|a: int, b: int| 0 <= a < out@.len() && 0 <= b < out@.len() && a != b implies #[trigger] out@[a]@ != #[trigger] out@[b]@ by {
                assert(self.entries@[a].0@ != self.entries@[b].0@);
            }
        }
        out
    }

    /// How many entries the table holds.
    pub fn len(&self) -> (r: usize)
        ensures
            r == self@.len(),
    {
        proof {
            use_type_invariant(self);
            lemma_entries_map_len(self.entries@);
        }
        self.entries.len()
    }
}

impl<T> View for Table<T> {
    type V = Map<Seq<char>, T>;

    closed spec fn view(&self) -> Map<Seq<char>, T> {
        entries_map(self.entries@)
    }
}

} // verus!
