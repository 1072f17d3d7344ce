//! Maps and sets with texts as keys.

use vstd::prelude::*;

use crate::chars::same;

verus! {

/// A map from texts. Of two entries with one key the later one counts.
#[derive(Debug)]
pub struct StringMap<V> {
    items: Vec<(String, V)>,
}

/// The map of a list of entries.
pub closed spec fn entries_of<V>(items: Seq<(String, V)>) -> Map<Seq<char>, V>
    decreases items.len(),
{
    if items.len() == 0 {
        Map::empty()
    } else {
        entries_of(items.drop_last()).insert(items.last().0@, items.last().1)
    }
}

impl<V> View for StringMap<V> {
    type V = Map<Seq<char>, V>;

    closed spec fn view(&self) -> Map<Seq<char>, V> {
        entries_of(self.items@)
    }
}

/// A list without entries is the empty map.
pub proof fn lemma_no_entries<V>()
    ensures
        entries_of(Seq::<(String, V)>::empty()) == Map::<Seq<char>, V>::empty(),
{
}

/// An entry at the end of a list takes the place of one that has its key.
pub proof fn lemma_one_more_entry<V>(items: Seq<(String, V)>, item: (String, V))
    ensures
        entries_of(items.push(item)) == entries_of(items).insert(item.0@, item.1),
{
    assert(items.push(item).drop_last() =~= items);
}

spec fn at<V>(m: Map<Seq<char>, V>, key: Seq<char>) -> Option<V> {
    if m.contains_key(key) {
        Some(m[key])
    } else {
        None
    }
}

impl<V> StringMap<V> {
    pub fn new() -> (out: Self)
        ensures
            out@ == Map::<Seq<char>, V>::empty(),
    {
        StringMap { items: Vec::new() }
    }

    pub fn get(&self, key: &str) -> (out: Option<&V>)
        ensures
            out is Some == self@.contains_key(key@),
            out matches Some(v) ==> *v == self@[key@],
    {
        let mut i: usize = self.items.len();
        let ghost all = self.items@;
        assert(all.take(i as int) =~= all);
        while i > 0
            invariant
                i <= self.items.len(),
                all == self.items@,
                at(entries_of(all), key@) == at(entries_of(all.take(i as int)), key@),
            decreases i,
        {
            proof {
                let seen = all.take(i as int);
                assert(seen.drop_last() =~= all.take(i - 1));
                assert(entries_of(seen) == entries_of(seen.drop_last()).insert(
                    seen.last().0@,
                    seen.last().1,
                ));
            }
            i -= 1;
            if same(self.items[i].0.as_str(), key) {
                return Some(&self.items[i].1);
            }
        }
        assert(entries_of(all.take(0)) == Map::<Seq<char>, V>::empty());
        None
    }

    /// Takes out the entry of a key.
    pub fn remove(&mut self, key: &str)
        ensures
            final(self)@ == old(self)@.remove(key@),
    {
        let mut items: Vec<(String, V)> = Vec::new();
        std::mem::swap(&mut items, &mut self.items);
        let ghost all = items@;
        let mut kept: Vec<(String, V)> = Vec::new();
        assert(entries_of(kept@) =~= entries_of(all.take(0)).remove(key@));
        for item in it: items
            invariant
                it.seq() == all,
                entries_of(kept@) == entries_of(all.take(it.index() as int)).remove(key@),
        {
            proof {
                let k = it.index() as int;
                assert(all.take(k + 1) =~= all.take(k).push(all[k]));
                lemma_one_more_entry(all.take(k), all[k]);
                lemma_one_more_entry(kept@, item);
                let seen = entries_of(all.take(k));
                if item.0@ == key@ {
                    assert(seen.insert(item.0@, item.1).remove(key@) =~= seen.remove(key@));
                } else {
                    assert(seen.insert(item.0@, item.1).remove(key@) =~= seen.remove(key@).insert(
                        item.0@,
                        item.1,
                    ));
                }
            }
            if !same(item.0.as_str(), key) {
                kept.push(item);
            }
        }
        assert(all.take(all.len() as int) =~= all);
        self.items = kept;
    }

    /// Puts in an entry, in place of one that has its key.
    pub fn insert(&mut self, key: String, value: V)
        ensures
            final(self)@ == old(self)@.insert(key@, value),
    {
        self.remove(key.as_str());
        proof {
            lemma_one_more_entry(self.items@, (key, value));
            assert(old(self)@.remove(key@).insert(key@, value) =~= old(self)@.insert(key@, value));
        }
        self.items.push((key, value));
    }

    /// The entries, in the order in which their keys were last put in.
    pub fn entries(&self) -> (out: &Vec<(String, V)>)
        ensures
            entries_of(out@) == self@,
    {
        &self.items
    }
}

/// One more; a number that cannot be raised begins anew.
pub open spec fn raised_number(n: u64) -> u64 {
    if n < u64::MAX {
        (n + 1) as u64
    } else {
        0
    }
}

/// Every number can be raised by one.
pub open spec fn can_grow(numbers: Map<Seq<char>, u64>) -> bool {
    forall|k: Seq<char>| #[trigger] numbers.contains_key(k) ==> numbers[k] < u64::MAX
}

impl StringMap<u64> {
    /// Raises every number by one.
    pub fn raise_all(&mut self)
        requires
            can_grow(old(self)@),
        ensures
            final(self)@ == old(self)@.map_values(|n: u64| raised_number(n)),
    {
        let mut items: Vec<(String, u64)> = Vec::new();
        std::mem::swap(&mut items, &mut self.items);
        let ghost all = items@;
        let ghost f = |n: u64| raised_number(n);
        let mut raised: Vec<(String, u64)> = Vec::new();
        assert(entries_of(raised@) =~= entries_of(all.take(0)).map_values(f));
        for item in it: items
            invariant
                it.seq() == all,
                f == (|n: u64| raised_number(n)),
                entries_of(raised@) == entries_of(all.take(it.index() as int)).map_values(f),
        {
            let ghost k = it.index() as int;
            let (key, n) = item;
            let more: u64 = if n < u64::MAX {
                n + 1
            } else {
                0
            };
            proof {
                assert(all.take(k + 1) =~= all.take(k).push(all[k]));
                lemma_one_more_entry(all.take(k), all[k]);
                lemma_one_more_entry(raised@, (key, more));
                let seen = entries_of(all.take(k));
                assert(seen.insert(key@, n).map_values(f) =~= seen.map_values(f).insert(
                    key@,
                    f(n),
                ));
            }
            raised.push((key, more));
        }
        assert(all.take(all.len() as int) =~= all);
        self.items = raised;
    }

    /// Whether every number can be raised by one.
    pub fn has_room(&self) -> (out: bool)
        ensures
            out == can_grow(self@),
    {
        let mut i: usize = 0;
        proof {
            lemma_keys(self.items@);
        }
        while i < self.items.len()
            invariant
                i <= self.items.len(),
                forall|j: int|
                    0 <= j < i ==> self@.contains_key((#[trigger] self.items@[j]).0@)
                        && self@[self.items@[j].0@] < u64::MAX,
                forall|j: int|
                    0 <= j < self.items@.len() ==> self@.contains_key(
                        (#[trigger] self.items@[j]).0@,
                    ),
                forall|k: Seq<char>| #[trigger]
                    self@.contains_key(k) ==> exists|j: int|
                        0 <= j < self.items@.len() && (#[trigger] self.items@[j]).0@ == k,
            decreases self.items.len() - i,
        {
            if let Some(n) = self.get(self.items[i].0.as_str()) {
                if *n == u64::MAX {
                    assert(self@.contains_key(self.items@[i as int].0@));
                    return false;
                }
            }
            i += 1;
        }
        true
    }
}

proof fn lemma_keys<V>(items: Seq<(String, V)>)
    ensures
        forall|j: int|
            0 <= j < items.len() ==> entries_of(items).contains_key((#[trigger] items[j]).0@),
        forall|k: Seq<char>| #[trigger]
            entries_of(items).contains_key(k) ==> exists|j: int|
                0 <= j < items.len() && (#[trigger] items[j]).0@ == k,
    decreases items.len(),
{
    if items.len() > 0 {
        let init = items.drop_last();
        lemma_keys(init);
        assert(entries_of(items) == entries_of(init).insert(items.last().0@, items.last().1));
        assert forall|j: int| 0 <= j < items.len() implies entries_of(items).contains_key(
            (#[trigger] items[j]).0@,
        ) by {
            if j < init.len() {
                assert(init[j] == items[j]);
            }
        }
        assert forall|k: Seq<char>| #[trigger] entries_of(items).contains_key(k) implies exists|
            j: int,
        |
            0 <= j < items.len() && (#[trigger] items[j]).0@ == k by {
            if k == items.last().0@ {
                assert(items[items.len() - 1].0@ == k);
            } else {
                let j = choose|j: int| 0 <= j < init.len() && (#[trigger] init[j]).0@ == k;
                assert(items[j].0@ == k);
            }
        }
    }
}

/// A set of pairs of texts.
#[derive(Debug)]
pub struct PairSet {
    items: Vec<(String, String)>,
}

impl View for PairSet {
    type V = Set<(Seq<char>, Seq<char>)>;

    closed spec fn view(&self) -> Set<(Seq<char>, Seq<char>)> {
        Set::new(|p: (Seq<char>, Seq<char>)| exists|i: int|
            0 <= i < self.items@.len() && p == ((#[trigger] self.items@[i]).0@, self.items@[i].1@))
    }
}

impl PairSet {
    pub fn new() -> (out: Self)
        ensures
            out@ == Set::<(Seq<char>, Seq<char>)>::empty(),
    {
        let out = PairSet { items: Vec::new() };
        assert(out@ =~= Set::<(Seq<char>, Seq<char>)>::empty());
        out
    }

    pub fn contains(&self, a: &str, b: &str) -> (out: bool)
        ensures
            out == self@.contains((a@, b@)),
    {
        let mut i: usize = 0;
        while i < self.items.len()
            invariant
                i <= self.items.len(),
                forall|j: int|
                    0 <= j < i ==> ((#[trigger] self.items@[j]).0@, self.items@[j].1@) != (a@, b@),
            decreases self.items.len() - i,
        {
            if same(self.items[i].0.as_str(), a) && same(self.items[i].1.as_str(), b) {
                assert((self.items@[i as int].0@, self.items@[i as int].1@) == (a@, b@));
                return true;
            }
            i += 1;
        }
        false
    }

    /// Puts in a pair. Returns whether it is new.
    pub fn insert(&mut self, a: &str, b: &str) -> (out: bool)
        ensures
            out == !old(self)@.contains((a@, b@)),
            final(self)@ == old(self)@.insert((a@, b@)),
    {
        if self.contains(a, b) {
            assert(self@ =~= self@.insert((a@, b@)));
            return false;
        }
        let ghost before = self.items@;
        self.items.push((a.to_owned(), b.to_owned()));
        proof {
            assert forall|p: (Seq<char>, Seq<char>)| self@.contains(p) == old(self)@.insert(
                (a@, b@),
            ).contains(p) by {
                if old(self)@.contains(p) {
                    let i = choose|i: int|
                        0 <= i < before.len() && p == ((#[trigger] before[i]).0@, before[i].1@);
                    assert(self.items@[i] == before[i]);
                }
                if p == (a@, b@) {
                    assert((self.items@[before.len() as int].0@, self.items@[before.len() as int].1@)
                        == p);
                }
                if self@.contains(p) {
                    let i = choose|i: int|
                        0 <= i < self.items@.len() && p == (
                            (#[trigger] self.items@[i]).0@,
                            self.items@[i].1@,
                        );
                    if i < before.len() {
                        assert(before[i] == self.items@[i]);
                    }
                }
            }
            assert(self@ =~= old(self)@.insert((a@, b@)));
        }
        true
    }
}

} // verus!
