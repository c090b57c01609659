//! Small collections keyed by text: counters and sets.

use vstd::prelude::*;

use crate::text;

verus! {

/// Counters by name. A name that was never counted stands at zero.
#[derive(Debug)]
pub struct Tally {
    entries: Vec<(String, u32)>,
}

/// The counters that a list of entries stands for; a later entry replaces an
/// earlier one of the same name.
pub closed spec fn tally_map(entries: Seq<(String, u32)>) -> Map<Seq<char>, u32>
    decreases entries.len(),
{
    if entries.len() == 0 {
        Map::empty()
    } else {
        tally_map(entries.drop_last()).insert(entries.last().0@, entries.last().1)
    }
}

impl View for Tally {
    type V = Map<Seq<char>, u32>;

    closed spec fn view(&self) -> Map<Seq<char>, u32> {
        tally_map(self.entries@)
    }
}

/// Where the counter `key` stands.
pub open spec fn count_of(m: Map<Seq<char>, u32>, key: Seq<char>) -> u32 {
    if m.contains_key(key) {
        m[key]
    } else {
        0
    }
}

/// One more, up to what the counter can hold.
pub open spec fn one_more(n: u32) -> u32 {
    if n < u32::MAX {
        (n + 1) as u32
    } else {
        n
    }
}

proof fn lemma_tally_push(entries: Seq<(String, u32)>, e: (String, u32))
    ensures
        tally_map(entries.push(e)) == tally_map(entries).insert(e.0@, e.1),
{
    assert(entries.push(e).drop_last() =~= entries);
}

impl Tally {
    pub fn new() -> (t: Tally)
        ensures
            t@ == Map::<Seq<char>, u32>::empty(),
    {
        Tally { entries: Vec::new() }
    }

    /// Where the counter `key` stands.
    pub fn get(&self, key: &str) -> (n: u32)
        ensures
            n == count_of(self@, key@),
    {
        let ghost all = self.entries@;
        let mut i: usize = self.entries.len();
        assert(all.take(i as int) =~= all);
        while i > 0
            invariant
                i <= self.entries.len(),
                all == self.entries@,
                count_of(tally_map(all), key@) == count_of(tally_map(all.take(i as int)), key@),
            decreases i,
        {
            assert(all.take(i as int).drop_last() =~= all.take(i - 1));
            i = i - 1;
            if text::same(&self.entries[i].0, key) {
                return self.entries[i].1;
            }
        }
        assert(all.take(0) =~= Seq::<(String, u32)>::empty());
        0
    }

    /// Forgets the counter `key`.
    pub fn remove(&mut self, key: &str)
        ensures
            final(self)@ == old(self)@.remove(key@),
    {
        let ghost all = self.entries@;
        let mut kept: Vec<(String, u32)> = Vec::new();
        let mut i: usize = 0;
        assert(all.take(0) =~= Seq::<(String, u32)>::empty());
        assert(tally_map(kept@) =~= tally_map(all.take(0)).remove(key@));
        while i < self.entries.len()
            invariant
                i <= self.entries.len(),
                all == self.entries@,
                tally_map(kept@) == tally_map(all.take(i as int)).remove(key@),
            decreases self.entries.len() - i,
        {
            assert(all.take(i + 1).drop_last() =~= all.take(i as int));
            let ghost e = all[i as int];
            if !text::same(&self.entries[i].0, key) {
                let copy = (self.entries[i].0.clone(), self.entries[i].1);
                proof {
                    lemma_tally_push(kept@, copy);
                }
                kept.push(copy);
                assert(tally_map(kept@) =~= tally_map(all.take(i + 1)).remove(key@));
            } else {
                assert(tally_map(kept@) =~= tally_map(all.take(i + 1)).remove(key@));
            }
            i = i + 1;
        }
        assert(all.take(i as int) =~= all);
        self.entries = kept;
    }

    /// Puts the counter `key` at `n`.
    pub fn set(&mut self, key: &str, n: u32)
        ensures
            final(self)@ == old(self)@.insert(key@, n),
    {
        let ghost before = self@;
        self.remove(key);
        let e = (key.to_owned(), n);
        proof {
            lemma_tally_push(self.entries@, e);
        }
        self.entries.push(e);
        assert(self@ =~= before.insert(key@, n));
    }

    /// Counts `key` once more and says where it then stands.
    pub fn bump(&mut self, key: &str) -> (n: u32)
        ensures
            n == one_more(count_of(old(self)@, key@)),
            final(self)@ == old(self)@.insert(key@, n),
    {
        let now = self.get(key);
        let n: u32 = if now < u32::MAX {
            now + 1
        } else {
            now
        };
        self.set(key, n);
        n
    }

    /// Forgets every counter that `keys` names.
    pub fn remove_all(&mut self, keys: &TextSet)
        ensures
            final(self)@ == old(self)@.remove_keys(keys@),
    {
        let ghost before = self@;
        let mut i: usize = 0;
        let ghost names = text::texts(keys.items@);
        assert(self@ =~= before.remove_keys(names.take(0).to_set()));
        while i < keys.items.len()
            invariant
                i <= keys.items.len(),
                names == text::texts(keys.items@),
                self@ == before.remove_keys(names.take(i as int).to_set()),
            decreases keys.items.len() - i,
        {
            self.remove(&keys.items[i]);
            assert(names[i as int] == keys.items@[i as int]@);
            assert(names.take(i + 1) =~= names.take(i as int).push(names[i as int]));
            assert(names.take(i + 1).to_set() =~= names.take(i as int).to_set().insert(
                names[i as int],
            )) by {
                let a = names.take(i as int);
                let x = names[i as int];
                assert forall|t: Seq<char>|
                    names.take(i + 1).to_set().contains(t) == a.to_set().insert(x).contains(t) by {
                    if a.contains(t) {
                        let j = choose|j: int| 0 <= j < a.len() && a[j] == t;
                        assert(names.take(i + 1)[j] == t);
                    }
                    if t == x {
                        assert(names.take(i + 1)[i as int] == t);
                    }
                }
            }
            assert(self@ =~= before.remove_keys(names.take(i + 1).to_set()));
            i = i + 1;
        }
        assert(names.take(i as int) =~= names);
    }
}

/// A set of texts.
#[derive(Debug)]
pub struct TextSet {
    items: Vec<String>,
}

impl View for TextSet {
    type V = Set<Seq<char>>;

    closed spec fn view(&self) -> Set<Seq<char>> {
        text::texts(self.items@).to_set()
    }
}

impl TextSet {
    pub fn new() -> (s: TextSet)
        ensures
            s@ == Set::<Seq<char>>::empty(),
    {
        let s = TextSet { items: Vec::new() };
        assert(s@ =~= Set::<Seq<char>>::empty());
        s
    }

    pub fn contains(&self, key: &str) -> (r: bool)
        ensures
            r == self@.contains(key@),
    {
        let ghost names = text::texts(self.items@);
        let mut i: usize = 0;
        while i < self.items.len()
            invariant
                i <= self.items.len(),
                names == text::texts(self.items@),
                forall|j: int| 0 <= j < i ==> names[j] != key@,
            decreases self.items.len() - i,
        {
            if text::same(&self.items[i], key) {
                assert(names[i as int] == key@);
                return true;
            }
            i = i + 1;
        }
        false
    }

    /// Adds `key` and says whether it is new.
    pub fn insert(&mut self, key: &str) -> (fresh: bool)
        ensures
            fresh == !old(self)@.contains(key@),
            final(self)@ == old(self)@.insert(key@),
    {
        if self.contains(key) {
            assert(self@ =~= old(self)@.insert(key@));
            return false;
        }
        let ghost before = text::texts(self.items@);
        let k = key.to_owned();
        proof {
            text::lemma_texts_push(self.items@, k);
        }
        self.items.push(k);
        proof {
            let after = text::texts(self.items@);
            assert forall|t: Seq<char>|
                after.to_set().contains(t) == before.to_set().insert(key@).contains(t) by {
                if before.contains(t) {
                    let j = choose|j: int| 0 <= j < before.len() && before[j] == t;
                    assert(after[j] == t);
                }
                if t == key@ {
                    assert(after[before.len() as int] == t);
                }
            }
            assert(self@ =~= old(self)@.insert(key@));
        }
        true
    }

    /// Takes `key` out and says whether it was there.
    pub fn remove(&mut self, key: &str) -> (there: bool)
        ensures
            there == old(self)@.contains(key@),
            final(self)@ == old(self)@.remove(key@),
    {
        let ghost names = text::texts(self.items@);
        let mut there: bool = false;
        let mut kept: Vec<String> = Vec::new();
        let mut i: usize = 0;
        while i < self.items.len()
            invariant
                i <= self.items.len(),
                names == text::texts(self.items@),
                there == names.take(i as int).contains(key@),
                forall|t: Seq<char>|
                    #[trigger] text::texts(kept@).contains(t) == (names.take(i as int).contains(t) && t
                        != key@),
            decreases self.items.len() - i,
        {
            let ghost x = names[i as int];
            let ghost a = names.take(i as int);
            let ghost b = names.take(i + 1);
            proof {
                assert(b =~= a.push(x));
                assert(x == self.items@[i as int]@);
                assert forall|t: Seq<char>| #[trigger] b.contains(t) == (a.contains(t) || t == x) by {
                    lemma_push_contains(a, x, t);
                }
            }
            if text::same(&self.items[i], key) {
                there = true;
            } else {
                let k = self.items[i].clone();
                let ghost before = text::texts(kept@);
                proof {
                    text::lemma_texts_push(kept@, k);
                }
                kept.push(k);
                proof {
                    assert forall|t: Seq<char>|
                        #[trigger] text::texts(kept@).contains(t) == (before.contains(t) || t == x) by {
                        lemma_push_contains(before, x, t);
                    }
                }
            }
            assert forall|t: Seq<char>|
                #[trigger] text::texts(kept@).contains(t) == (names.take(i + 1).contains(t) && t
                    != key@) by {
                assert(b.contains(t) == (a.contains(t) || t == x));
            }
            i = i + 1;
        }
        assert(names.take(i as int) =~= names);
        self.items = kept;
        assert(self@ =~= old(self)@.remove(key@));
        there
    }

    /// Takes everything out.
    pub fn clear(&mut self)
        ensures
            final(self)@ == Set::<Seq<char>>::empty(),
    {
        self.items = Vec::new();
        assert(self@ =~= Set::<Seq<char>>::empty());
    }
}

proof fn lemma_push_contains(a: Seq<Seq<char>>, x: Seq<char>, t: Seq<char>)
    ensures
        a.push(x).contains(t) == (a.contains(t) || t == x),
{
    if a.contains(t) {
        let j = choose|j: int| 0 <= j < a.len() && a[j] == t;
        assert(a.push(x)[j] == t);
    }
    if t == x {
        assert(a.push(x)[a.len() as int] == t);
    }
}

/// Counting one key up leaves the others, and a count that was set is read back.
pub proof fn law_counts(m: Map<Seq<char>, u32>, key: Seq<char>, other: Seq<char>, n: u32)
    requires
        other != key,
    ensures
        count_of(Map::<Seq<char>, u32>::empty(), key) == 0,
        count_of(m.insert(key, n), key) == n,
        count_of(m.insert(key, n), other) == count_of(m, other),
        count_of(m.remove(key), key) == 0,
        count_of(m.remove(key), other) == count_of(m, other),
        n < u32::MAX ==> one_more(n) == n + 1,
        one_more(n) >= n && one_more(n) > 0,
{
}

} // verus!
