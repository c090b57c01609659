//! Things that are kept by name.

use vstd::prelude::*;

use crate::json::Json;
use crate::text;

verus! {

/// Things that are kept by name, each name once.
#[derive(Debug)]
pub struct Registry<V> {
    entries: Vec<(String, V)>,
}

impl<V> Registry<V> {
    /// The names, in the order in which they came.
    pub closed spec fn names(self) -> Seq<Seq<char>> {
        self.entries@.map_values(|e: (String, V)| e.0@)
    }

    /// No name stands twice.
    pub closed spec fn wf(self) -> bool {
        self.names().no_duplicates()
    }

    /// What is kept under which name.
    pub closed spec fn contents(self) -> Map<Seq<char>, V> {
        Map::new(
            |k: Seq<char>| self.names().contains(k),
            |k: Seq<char>|
                self.entries@[choose|i: int| 0 <= i < self.entries@.len() && self.names()[i] == k].1,
        )
    }

    pub fn new() -> (r: Registry<V>)
        ensures
            r.wf(),
            r.contents() == Map::<Seq<char>, V>::empty(),
    {
        let r = Registry { entries: Vec::new() };
        assert(r.names() =~= Seq::<Seq<char>>::empty());
        assert(r.contents() =~= Map::<Seq<char>, V>::empty());
        r
    }

    proof fn lemma_entry(self, i: int)
        requires
            self.wf(),
            0 <= i < self.entries@.len(),
        ensures
            self.contents().contains_key(self.names()[i]),
            self.contents()[self.names()[i]] == self.entries@[i].1,
    {
        let k = self.names()[i];
        let j = choose|j: int| 0 <= j < self.entries@.len() && self.names()[j] == k;
        assert(self.names()[i] == k);
        assert(self.names().contains(k));
        assert(0 <= j < self.entries@.len() && self.names()[j] == k);
        assert(i == j);
    }

    fn position(&self, key: &str) -> (r: Option<usize>)
        requires
            self.wf(),
        ensures
            match r {
                Some(i) => i < self.entries.len() && self.names()[i as int] == key@,
                None => !self.names().contains(key@),
            },
    {
        let mut i: usize = 0;
        while i < self.entries.len()
            invariant
                i <= self.entries.len(),
                forall|j: int| 0 <= j < i ==> self.names()[j] != key@,
            decreases self.entries.len() - i,
        {
            if text::same(&self.entries[i].0, key) {
                return Some(i);
            }
            i = i + 1;
        }
        None
    }

    /// What is kept under a name.
    pub fn get(&self, key: &str) -> (r: Option<&V>)
        requires
            self.wf(),
        ensures
            match r {
                Some(v) => self.contents().contains_key(key@) && self.contents()[key@] == *v,
                None => !self.contents().contains_key(key@),
            },
    {
        match self.position(key) {
            Some(i) => {
                proof {
                    self.lemma_entry(i as int);
                }
                Some(&self.entries[i].1)
            },
            None => None,
        }
    }

    /// Keeps something under a name, in place of what was there.
    pub fn insert(&mut self, key: &str, value: V)
        requires
            old(self).wf(),
        ensures
            final(self).wf(),
            final(self).contents() == old(self).contents().insert(key@, value),
    {
        let ghost start = *self;
        match self.position(key) {
            Some(i) => {
                self.entries.set(i, (key.to_owned(), value));
                proof {
                    assert(self.names() =~= start.names());
                    assert forall|k: Seq<char>| self.contents().contains_key(k) implies (
                    #[trigger] self.contents()[k]) == start.contents().insert(key@, value)[k] by {
                        let j = choose|j: int| 0 <= j < self.names().len() && self.names()[j] == k;
                        self.lemma_entry(j);
                        start.lemma_entry(j);
                        if j != i {
                            assert(k != key@);
                        }
                    }
                    assert(self.contents() =~= start.contents().insert(key@, value));
                }
            },
            None => {
                self.entries.push((key.to_owned(), value));
                proof {
                    assert(self.names() =~= start.names().push(key@));
                    assert(self.wf());
                    assert forall|k: Seq<char>| self.contents().contains_key(k) == start.contents().insert(
                        key@,
                        value,
                    ).contains_key(k) by {
                        if start.names().contains(k) {
                            let j = choose|j: int|
                                0 <= j < start.names().len() && start.names()[j] == k;
                            assert(self.names()[j] == k);
                        }
                        if k == key@ {
                            assert(self.names()[start.names().len() as int] == k);
                        }
                    }
                    assert forall|k: Seq<char>| self.contents().contains_key(k) implies (
                    #[trigger] self.contents()[k]) == start.contents().insert(key@, value)[k] by {
                        let j = choose|j: int| 0 <= j < self.names().len() && self.names()[j] == k;
                        self.lemma_entry(j);
                        if j < start.names().len() {
                            start.lemma_entry(j);
                            assert(start.names()[j] == k);
                        }
                    }
                    assert(self.contents() =~= start.contents().insert(key@, value));
                }
            },
        }
    }
}

/// The state of long tasks, by the names of their checkpoints.
#[derive(Debug)]
pub struct CheckpointStore {
    pub points: Registry<Json>,
}

impl CheckpointStore {
    pub fn new() -> (r: CheckpointStore)
        ensures
            r.points.wf(),
            r.points.contents() == Map::<Seq<char>, Json>::empty(),
    {
        CheckpointStore { points: Registry::new() }
    }

    pub fn record(&mut self, name: &str, value: Json)
        requires
            old(self).points.wf(),
        ensures
            final(self).points.wf(),
            final(self).points.contents() == old(self).points.contents().insert(name@, value),
    {
        self.points.insert(name, value);
    }

    pub fn get(&self, name: &str) -> (r: Option<&Json>)
        requires
            self.points.wf(),
        ensures
            match r {
                Some(v) => self.points.contents().contains_key(name@)
                    && self.points.contents()[name@] == *v,
                None => !self.points.contents().contains_key(name@),
            },
    {
        self.points.get(name)
    }
}

/// Counters, by their names.
#[derive(Debug)]
pub struct Metrics {
    pub counters: Registry<u64>,
}

/// What a counter stands at.
pub open spec fn counted(m: Map<Seq<char>, u64>, name: Seq<char>) -> u64 {
    if m.contains_key(name) {
        m[name]
    } else {
        0
    }
}

impl Metrics {
    pub fn new() -> (r: Metrics)
        ensures
            r.counters.wf(),
            r.counters.contents() == Map::<Seq<char>, u64>::empty(),
    {
        Metrics { counters: Registry::new() }
    }

    /// Counts one up.
    pub fn inc(&mut self, name: &str)
        requires
            old(self).counters.wf(),
            counted(old(self).counters.contents(), name@) < u64::MAX,
        ensures
            final(self).counters.wf(),
            final(self).counters.contents() == old(self).counters.contents().insert(
                name@,
                (counted(old(self).counters.contents(), name@) + 1) as u64,
            ),
    {
        let n = self.get(name);
        self.counters.insert(name, n + 1);
    }

    /// What a counter stands at.
    pub fn get(&self, name: &str) -> (r: u64)
        requires
            self.counters.wf(),
        ensures
            r == counted(self.counters.contents(), name@),
    {
        match self.counters.get(name) {
            Some(n) => *n,
            None => 0,
        }
    }
}

/// Sequences of steps, by their names.
#[derive(Debug)]
pub struct FlowRegistry {
    pub flows: Registry<Vec<Json>>,
}

impl FlowRegistry {
    pub fn new() -> (r: FlowRegistry)
        ensures
            r.flows.wf(),
            r.flows.contents() == Map::<Seq<char>, Vec<Json>>::empty(),
    {
        FlowRegistry { flows: Registry::new() }
    }
}

/// Extensions, by their names.
#[derive(Debug)]
pub struct ExtensionRegistry {
    pub extensions: Registry<Json>,
}

impl ExtensionRegistry {
    pub fn new() -> (r: ExtensionRegistry)
        ensures
            r.extensions.wf(),
            r.extensions.contents() == Map::<Seq<char>, Json>::empty(),
    {
        ExtensionRegistry { extensions: Registry::new() }
    }
}

/// Counting one name leaves the others as they are.
pub proof fn law_counters_are_apart(m: Map<Seq<char>, u64>, name: Seq<char>, other: Seq<char>)
    requires
        name != other,
        counted(m, name) < u64::MAX,
    ensures
        counted(m.insert(name, (counted(m, name) + 1) as u64), name) == counted(m, name) + 1,
        counted(m.insert(name, (counted(m, name) + 1) as u64), other) == counted(m, other),
{
}

/// What was kept last under a name is found there, and what is under other
/// names stays.
pub proof fn law_kept_by_name<V>(m: Map<Seq<char>, V>, a: Seq<char>, b: Seq<char>, x: V, y: V)
    requires
        a != b,
    ensures
        m.insert(a, x).insert(a, y)[a] == y,
        m.insert(a, x).insert(b, y)[a] == x,
        m.insert(a, x).insert(b, y).contains_key(a),
        counted(Map::<Seq<char>, u64>::empty(), a) == 0,
{
}

} // verus!
