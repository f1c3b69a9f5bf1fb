//! The environment of a process to be spawned: a map from variable names to
//! values, kept in the order in which the names were first set.

use crate::text::view_of;
use vstd::prelude::*;

verus! {

/// A process environment. Its view is the map from names to values.
pub struct EnvMap {
    entries: Vec<(String, String)>,
}

/// Whether `entries` holds the name `k`.
pub open spec fn has_key(entries: Seq<(String, String)>, k: Seq<char>) -> bool {
    exists|i: int| 0 <= i < entries.len() && (#[trigger] entries[i]).0@ == k
}

/// A place at which `entries` holds the name `k`.
pub open spec fn index_of(entries: Seq<(String, String)>, k: Seq<char>) -> int {
    choose|i: int| 0 <= i < entries.len() && (#[trigger] entries[i]).0@ == k
}

/// No name stands twice in `entries`.
pub open spec fn distinct_keys(entries: Seq<(String, String)>) -> bool {
    forall|i: int, j: int|
        0 <= i < j < entries.len() ==> (#[trigger] entries[i]).0@ != (#[trigger] entries[j]).0@
}

/// The map that `entries` stands for.
pub open spec fn map_of(entries: Seq<(String, String)>) -> Map<Seq<char>, Seq<char>> {
    Map::new(|k: Seq<char>| has_key(entries, k), |k: Seq<char>| entries[index_of(entries, k)].1@)
}

/// The value of `name` in `env`, where it is set.
pub open spec fn lookup(env: Map<Seq<char>, Seq<char>>, name: Seq<char>) -> Option<Seq<char>> {
    if env.contains_key(name) {
        Some(env[name])
    } else {
        None
    }
}

proof fn lemma_index_of(entries: Seq<(String, String)>, i: int)
    requires
        distinct_keys(entries),
        0 <= i < entries.len(),
    ensures
        has_key(entries, entries[i].0@),
        index_of(entries, entries[i].0@) == i,
        map_of(entries)[entries[i].0@] == entries[i].1@,
{
    let k = entries[i].0@;
    let j = index_of(entries, k);
    assert(0 <= j < entries.len() && entries[j].0@ == k);
    if j < i {
        assert(entries[j].0@ != entries[i].0@);
    } else if i < j {
        assert(entries[i].0@ != entries[j].0@);
    }
}

proof fn lemma_push(entries: Seq<(String, String)>, key: String, value: String)
    requires
        distinct_keys(entries),
        !has_key(entries, key@),
    ensures
        distinct_keys(entries.push((key, value))),
        map_of(entries.push((key, value))) == map_of(entries).insert(key@, value@),
{
    let after = entries.push((key, value));
    assert forall|i: int, j: int| 0 <= i < j < after.len() implies (#[trigger] after[i]).0@ != (
    #[trigger] after[j]).0@ by {
        if j == entries.len() {
            assert(entries[i].0@ != key@);
        } else {
            assert(entries[i].0@ != entries[j].0@);
        }
    }
    assert forall|k: Seq<char>| has_key(after, k) == (has_key(entries, k) || k == key@) by {
        if has_key(after, k) {
            let i = index_of(after, k);
            if i < entries.len() {
                assert(entries[i].0@ == k);
            }
        }
        if has_key(entries, k) {
            let i = index_of(entries, k);
            assert(after[i].0@ == k);
        }
        if k == key@ {
            assert(after[entries.len() as int].0@ == k);
        }
    }
    assert forall|k: Seq<char>| has_key(after, k) implies map_of(after)[k] == map_of(
        entries,
    ).insert(key@, value@)[k] by {
        let i = index_of(after, k);
        lemma_index_of(after, i);
        if i < entries.len() {
            assert(entries[i] == after[i]);
            lemma_index_of(entries, i);
        }
    }
    assert(map_of(after) =~= map_of(entries).insert(key@, value@));
}

proof fn lemma_update(entries: Seq<(String, String)>, i: int, key: String, value: String)
    requires
        distinct_keys(entries),
        0 <= i < entries.len(),
        entries[i].0@ == key@,
    ensures
        distinct_keys(entries.update(i, (key, value))),
        map_of(entries.update(i, (key, value))) == map_of(entries).insert(key@, value@),
{
    let after = entries.update(i, (key, value));
    assert forall|a: int, b: int| 0 <= a < b < after.len() implies (#[trigger] after[a]).0@ != (
    #[trigger] after[b]).0@ by {
        assert(after[a].0@ == entries[a].0@);
        assert(after[b].0@ == entries[b].0@);
        assert(entries[a].0@ != entries[b].0@);
    }
    assert forall|k: Seq<char>| has_key(after, k) == has_key(entries, k) by {
        if has_key(after, k) {
            let j = index_of(after, k);
            assert(entries[j].0@ == k);
        }
        if has_key(entries, k) {
            let j = index_of(entries, k);
            assert(after[j].0@ == k);
        }
    }
    lemma_index_of(entries, i);
    assert forall|k: Seq<char>| has_key(after, k) implies map_of(after)[k] == map_of(
        entries,
    ).insert(key@, value@)[k] by {
        let j = index_of(after, k);
        lemma_index_of(after, j);
        if j != i {
            assert(entries[j] == after[j]);
            lemma_index_of(entries, j);
        }
    }
    assert(map_of(after) =~= map_of(entries).insert(key@, value@));
}

impl View for EnvMap {
    type V = Map<Seq<char>, Seq<char>>;

    closed spec fn view(&self) -> Map<Seq<char>, Seq<char>> {
        map_of(self.entries@)
    }
}

impl EnvMap {
    /// The invariant of the type: no name stands twice.
    pub closed spec fn wf(&self) -> bool {
        distinct_keys(self.entries@)
    }

    /// The names and values as they are stored, in the order in which the
    /// names were first set.
    pub closed spec fn listing(&self) -> Seq<(String, String)> {
        self.entries@
    }

    /// An environment with no variable.
    pub fn new() -> (env: Self)
        ensures
            env.wf(),
            env@ == Map::<Seq<char>, Seq<char>>::empty(),
            env.listing().len() == 0,
    {
        let env = EnvMap { entries: Vec::new() };
        assert(env@ =~= Map::<Seq<char>, Seq<char>>::empty());
        env
    }

    fn position(&self, key: &str) -> (r: Option<usize>)
        ensures
            match r {
                Some(i) => i < self.entries.len() && self.entries[i as int].0@ == key@,
                None => !has_key(self.entries@, key@),
            },
    {
        let mut i: usize = 0;
        while i < self.entries.len()
            invariant
                i <= self.entries.len(),
                forall|j: int| 0 <= j < i ==> (#[trigger] self.entries[j]).0@ != key@,
            decreases self.entries.len() - i,
        {
            if self.entries[i].0.as_str().eq(key) {
                return Some(i);
            }
            i += 1;
        }
        None
    }

    /// Sets `key` to `value`; returns the value that `key` had before, if it
    /// had one.
    pub fn insert(&mut self, key: String, value: String) -> (previous: Option<String>)
        requires
            old(self).wf(),
        ensures
            final(self).wf(),
            final(self)@ == old(self)@.insert(key@, value@),
            match previous {
                Some(v) => old(self)@.contains_key(key@) && old(self)@[key@] == v@,
                None => !old(self)@.contains_key(key@),
            },
    {
        match self.position(key.as_str()) {
            Some(i) => {
                let previous = self.entries[i].1.clone();
                proof {
                    lemma_index_of(self.entries@, i as int);
                    lemma_update(self.entries@, i as int, key, value);
                }
                self.entries.set(i, (key, value));
                Some(previous)
            },
            None => {
                proof {
                    lemma_push(self.entries@, key, value);
                }
                self.entries.push((key, value));
                None
            },
        }
    }

    /// The value of `key`, if it is set.
    pub fn get(&self, key: &str) -> (value: Option<&String>)
        requires
            self.wf(),
        ensures
            match value {
                Some(v) => self@.contains_key(key@) && self@[key@] == v@,
                None => !self@.contains_key(key@),
            },
    {
        match self.position(key) {
            Some(i) => {
                proof {
                    lemma_index_of(self.entries@, i as int);
                }
                Some(&self.entries[i].1)
            },
            None => None,
        }
    }

    /// A copy of the value of `key`, if it is set.
    pub fn value_of(&self, key: &str) -> (value: Option<String>)
        requires
            self.wf(),
        ensures
            view_of(value) == lookup(self@, key@),
    {
        match self.get(key) {
            Some(value) => Some(value.clone()),
            None => None,
        }
    }

    /// Whether `key` is set.
    pub fn contains_key(&self, key: &str) -> (present: bool)
        ensures
            present == self@.contains_key(key@),
    {
        self.position(key).is_some()
    }

    /// How many variables are set.
    pub fn len(&self) -> (n: usize)
        ensures
            n == self.listing().len(),
    {
        self.entries.len()
    }

    /// The names with their values, in the order in which the names were
    /// first set: each name once, and each with the value that the map gives
    /// it.
    pub fn pairs(&self) -> (list: &Vec<(String, String)>)
        requires
            self.wf(),
        ensures
            list@ == self.listing(),
            distinct_keys(list@),
            forall|k: Seq<char>| self@.contains_key(k) <==> has_key(list@, k),
            forall|i: int|
                0 <= i < list.len() ==> self@[(#[trigger] list[i]).0@] == list[i].1@,
    {
        proof {
            assert forall|i: int| 0 <= i < self.entries.len() implies self@[(
            #[trigger] self.entries[i]).0@] == self.entries[i].1@ by {
                lemma_index_of(self.entries@, i);
            }
        }
        &self.entries
    }
}

} // verus!
