//! A set of names.
use vstd::prelude::*;

use crate::text::{copy_list, in_list, lemma_texts_push, same, texts, Text};

verus! {

/// A set of names. Nothing is promised about the order in which they are kept.
#[derive(Debug)]
pub struct NameSet {
    items: Vec<String>,
}

impl View for NameSet {
    type V = Set<Text>;

    closed spec fn view(&self) -> Set<Text> {
        texts(self.items@).to_set()
    }
}

impl NameSet {
    pub fn new() -> (r: NameSet)
        ensures
            r@ == Set::<Text>::empty(),
    {
        let r = NameSet { items: Vec::new() };
        proof {
            assert(r@ =~= Set::<Text>::empty());
        }
        r
    }

    /// The set is finite.
    pub proof fn is_finite(&self)
        ensures
            self@.finite(),
    {
        vstd::seq_lib::seq_to_set_is_finite(texts(self.items@));
    }

    /// The set of the names of a list.
    pub fn of(list: &[String]) -> (r: NameSet)
        ensures
            r@ == texts(list@).to_set(),
    {
        NameSet { items: copy_list(list) }
    }

    pub fn copy(&self) -> (r: NameSet)
        ensures
            r@ == self@,
    {
        NameSet { items: copy_list(self.items.as_slice()) }
    }

    pub fn contains(&self, name: &str) -> (r: bool)
        ensures
            r == self@.contains(name@),
    {
        in_list(self.items.as_slice(), name)
    }

    pub fn is_empty(&self) -> (r: bool)
        ensures
            r == (self@ == Set::<Text>::empty()),
    {
        proof {
            if self.items@.len() > 0 {
                assert(texts(self.items@).contains(texts(self.items@)[0]));
                assert(self@.contains(self.items@[0]@));
            } else {
                assert(self@ =~= Set::<Text>::empty());
            }
        }
        self.items.len() == 0
    }

    pub fn insert(&mut self, name: &str)
        ensures
            final(self)@ == old(self)@.insert(name@),
    {
        let ghost before = texts(self.items@);
        if self.contains(name) {
            proof {
                assert(self@ =~= old(self)@.insert(name@));
            }
            return;
        }
        let item = name.to_owned();
        proof {
            lemma_texts_push(self.items@, item);
        }
        self.items.push(item);
        proof {
            before.lemma_push_to_set_commute(name@);
        }
    }

    /// Adds every name of a list.
    pub fn extend(&mut self, list: &[String])
        ensures
            final(self)@ == old(self)@.union(texts(list@).to_set()),
    {
        let mut i: usize = 0;
        proof {
            assert(texts(list@).take(0).to_set() =~= Set::<Text>::empty());
            assert(self@.union(Set::<Text>::empty()) =~= self@);
        }
        while i < list.len()
            invariant
                i <= list.len(),
                self@ == old(self)@.union(texts(list@).take(i as int).to_set()),
            decreases list.len() - i,
        {
            self.insert(list[i].as_str());
            proof {
                let all = texts(list@);
                assert(all.take(i + 1) =~= all.take(i as int).push(list@[i as int]@));
                all.take(i as int).lemma_push_to_set_commute(list@[i as int]@);
                assert(self@ =~= old(self)@.union(all.take(i + 1).to_set()));
            }
            i += 1;
        }
        proof {
            assert(texts(list@).take(list@.len() as int) =~= texts(list@));
        }
    }

    /// Removes a name; says whether it was there.
    pub fn remove(&mut self, name: &str) -> (r: bool)
        ensures
            final(self)@ == old(self)@.remove(name@),
            r == old(self)@.contains(name@),
    {
        let had = self.contains(name);
        let mut kept: Vec<String> = Vec::new();
        let mut i: usize = 0;
        let ghost all = texts(self.items@);
        while i < self.items.len()
            invariant
                i <= self.items.len(),
                all == texts(self.items@),
                texts(kept@).to_set() =~= all.take(i as int).to_set().remove(name@),
            decreases self.items.len() - i,
        {
            proof {
                assert(all.take(i + 1) =~= all.take(i as int).push(self.items@[i as int]@));
                all.take(i as int).lemma_push_to_set_commute(self.items@[i as int]@);
                lemma_texts_push(kept@, self.items@[i as int]);
                texts(kept@).lemma_push_to_set_commute(self.items@[i as int]@);
            }
            if !same(self.items[i].as_str(), name) {
                kept.push(self.items[i].clone());
            }
            i += 1;
        }
        proof {
            assert(all.take(all.len() as int) =~= all);
        }
        self.items = kept;
        had
    }

    /// Keeps the names that are in another set too.
    pub fn keep(&mut self, others: &NameSet)
        ensures
            final(self)@ == old(self)@.intersect(others@),
    {
        let mut kept: Vec<String> = Vec::new();
        let mut i: usize = 0;
        let ghost all = texts(self.items@);
        while i < self.items.len()
            invariant
                i <= self.items.len(),
                all == texts(self.items@),
                texts(kept@).to_set() =~= all.take(i as int).to_set().intersect(others@),
            decreases self.items.len() - i,
        {
            proof {
                assert(all.take(i + 1) =~= all.take(i as int).push(self.items@[i as int]@));
                all.take(i as int).lemma_push_to_set_commute(self.items@[i as int]@);
                lemma_texts_push(kept@, self.items@[i as int]);
                texts(kept@).lemma_push_to_set_commute(self.items@[i as int]@);
            }
            if others.contains(self.items[i].as_str()) {
                kept.push(self.items[i].clone());
            }
            i += 1;
        }
        proof {
            assert(all.take(all.len() as int) =~= all);
        }
        self.items = kept;
    }

    /// The names of the set, each at least once, in no particular order.
    pub fn items(&self) -> (r: &[String])
        ensures
            texts(r@).to_set() == self@,
    {
        self.items.as_slice()
    }
}

/// One entry of a map.
#[derive(Debug)]
struct TextEntry {
    key: String,
    value: String,
}

/// A map from names to texts.
#[derive(Debug)]
pub struct TextMap {
    entries: Vec<TextEntry>,
}

spec fn map_of(entries: Seq<TextEntry>) -> Map<Text, Text>
    decreases entries.len(),
{
    if entries.len() == 0 {
        Map::empty()
    } else {
        map_of(entries.drop_last()).insert(entries.last().key@, entries.last().value@)
    }
}

impl View for TextMap {
    type V = Map<Text, Text>;

    closed spec fn view(&self) -> Map<Text, Text> {
        map_of(self.entries@)
    }
}

impl TextMap {
    pub fn new() -> (r: TextMap)
        ensures
            r@ == Map::<Text, Text>::empty(),
    {
        TextMap { entries: Vec::new() }
    }

    pub fn insert(&mut self, key: &str, value: String)
        ensures
            final(self)@ == old(self)@.insert(key@, value@),
    {
        let entry = TextEntry { key: key.to_owned(), value };
        proof {
            assert(self.entries@.push(entry).drop_last() =~= self.entries@);
        }
        self.entries.push(entry);
    }

    pub fn get(&self, key: &str) -> (r: Option<String>)
        ensures
            match r {
                Some(value) => self@.dom().contains(key@) && self@[key@] == value@,
                None => !self@.dom().contains(key@),
            },
    {
        let ghost all = self.entries@;
        let mut i: usize = self.entries.len();
        proof {
            assert(all.take(all.len() as int) =~= all);
        }
        while i > 0
            invariant
                i <= all.len(),
                all == self.entries@,
                map_of(all).dom().contains(key@) == map_of(all.take(i as int)).dom().contains(key@),
                map_of(all).dom().contains(key@) ==> map_of(all)[key@] == map_of(
                    all.take(i as int),
                )[key@],
            decreases i,
        {
            proof {
                assert(all.take(i as int).drop_last() =~= all.take(i - 1));
            }
            if same(self.entries[i - 1].key.as_str(), key) {
                return Some(self.entries[i - 1].value.clone());
            }
            i -= 1;
        }
        None
    }

    pub fn copy(&self) -> (r: TextMap)
        ensures
            r@ == self@,
    {
        let ghost all = self.entries@;
        let mut r = TextMap::new();
        let mut i: usize = 0;
        proof {
            assert(all.take(0) =~= Seq::empty());
        }
        while i < self.entries.len()
            invariant
                i <= self.entries.len(),
                all == self.entries@,
                r@ == map_of(all.take(i as int)),
            decreases self.entries.len() - i,
        {
            proof {
                assert(all.take(i + 1).drop_last() =~= all.take(i as int));
            }
            r.insert(self.entries[i].key.as_str(), self.entries[i].value.clone());
            i += 1;
        }
        proof {
            assert(all.take(all.len() as int) =~= all);
        }
        r
    }

    /// Keeps the entries whose keys are in a set.
    pub fn keep(&mut self, keys: &NameSet)
        ensures
            final(self)@ == old(self)@.restrict(keys@),
    {
        let ghost all = self.entries@;
        let mut r = TextMap::new();
        let mut i: usize = 0;
        proof {
            assert(all.take(0) =~= Seq::empty());
            assert(r@ =~= map_of(all.take(0)).restrict(keys@));
        }
        while i < self.entries.len()
            invariant
                i <= self.entries.len(),
                all == self.entries@,
                r@ == map_of(all.take(i as int)).restrict(keys@),
            decreases self.entries.len() - i,
        {
            proof {
                assert(all.take(i + 1).drop_last() =~= all.take(i as int));
            }
            if keys.contains(self.entries[i].key.as_str()) {
                r.insert(self.entries[i].key.as_str(), self.entries[i].value.clone());
            }
            proof {
                assert(r@ =~= map_of(all.take(i + 1)).restrict(keys@));
            }
            i += 1;
        }
        proof {
            assert(all.take(all.len() as int) =~= all);
        }
        self.entries = r.entries;
    }
}

} // verus!
