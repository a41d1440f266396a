//! A map from texts to values, held as a list of entries.
//!
//! Where a key occurs more than once in the list, its first entry counts.
use vstd::prelude::*;

use crate::text::{same_text, texts};

verus! {

#[derive(Debug)]
pub struct StrMap<V> {
    pub entries: Vec<(String, V)>,
}

/// The map that a list of entries stands for.
pub open spec fn entry_map<V>(entries: Seq<(String, V)>) -> Map<Seq<char>, V>
    decreases entries.len(),
{
    if entries.len() == 0 {
        Map::empty()
    } else {
        entry_map(entries.drop_first()).insert(entries[0].0@, entries[0].1)
    }
}

impl<V> View for StrMap<V> {
    type V = Map<Seq<char>, V>;

    open spec fn view(&self) -> Map<Seq<char>, V> {
        entry_map(self.entries@)
    }
}

pub open spec fn has_key_at<V>(entries: Seq<(String, V)>, i: int, key: Seq<char>) -> bool {
    &&& 0 <= i < entries.len()
    &&& entries[i].0@ == key
    &&& forall|j: int| 0 <= j < i ==> (#[trigger] entries[j]).0@ != key
}

pub open spec fn lacks_key<V>(entries: Seq<(String, V)>, key: Seq<char>) -> bool {
    forall|j: int| 0 <= j < entries.len() ==> (#[trigger] entries[j]).0@ != key
}

pub proof fn lemma_entry_at<V>(entries: Seq<(String, V)>, i: int, key: Seq<char>)
    requires
        has_key_at(entries, i, key),
    ensures
        entry_map(entries).contains_key(key),
        entry_map(entries)[key] == entries[i].1,
    decreases entries.len(),
{
    if i > 0 {
        let rest = entries.drop_first();
        assert forall|j: int| 0 <= j < i - 1 implies (#[trigger] rest[j]).0@ != key by {
            assert(rest[j] == entries[j + 1]);
        }
        assert(rest[i - 1] == entries[i]);
        lemma_entry_at(rest, i - 1, key);
        assert(entries[0].0@ != key);
    }
}

pub proof fn lemma_entry_absent<V>(entries: Seq<(String, V)>, key: Seq<char>)
    requires
        lacks_key(entries, key),
    ensures
        !entry_map(entries).contains_key(key),
    decreases entries.len(),
{
    if entries.len() > 0 {
        let rest = entries.drop_first();
        assert forall|j: int| 0 <= j < rest.len() implies (#[trigger] rest[j]).0@ != key by {
            assert(rest[j] == entries[j + 1]);
        }
        lemma_entry_absent(rest, key);
        assert(entries[0].0@ != key);
    }
}

pub proof fn lemma_entry_first<V>(entries: Seq<(String, V)>, key: Seq<char>) -> (i: int)
    requires
        entry_map(entries).contains_key(key),
    ensures
        has_key_at(entries, i, key),
    decreases entries.len(),
{
    if entries[0].0@ == key {
        0
    } else {
        let rest = entries.drop_first();
        let k = lemma_entry_first(rest, key);
        assert forall|j: int| 0 <= j < k + 1 implies (#[trigger] entries[j]).0@ != key by {
            if j > 0 {
                assert(rest[j - 1] == entries[j]);
            }
        }
        assert(rest[k] == entries[k + 1]);
        k + 1
    }
}

pub proof fn lemma_entry_listed<V>(entries: Seq<(String, V)>, i: int)
    requires
        0 <= i < entries.len(),
    ensures
        entry_map(entries).contains_key(entries[i].0@),
    decreases entries.len(),
{
    if i > 0 {
        lemma_entry_listed(entries.drop_first(), i - 1);
    }
}

pub proof fn lemma_entry_update<V>(entries: Seq<(String, V)>, i: int, key: String, value: V)
    requires
        has_key_at(entries, i, key@),
    ensures
        entry_map(entries.update(i, (key, value))) == entry_map(entries).insert(key@, value),
    decreases entries.len(),
{
    let updated = entries.update(i, (key, value));
    let rest = entries.drop_first();
    if i == 0 {
        assert(updated.drop_first() =~= rest);
        assert(entry_map(updated) =~= entry_map(entries).insert(key@, value));
    } else {
        assert forall|j: int| 0 <= j < i - 1 implies (#[trigger] rest[j]).0@ != key@ by {
            assert(rest[j] == entries[j + 1]);
        }
        assert(rest[i - 1] == entries[i]);
        lemma_entry_update(rest, i - 1, key, value);
        assert(updated.drop_first() =~= rest.update(i - 1, (key, value)));
        assert(entries[0].0@ != key@);
        assert(entry_map(updated) =~= entry_map(entries).insert(key@, value));
    }
}

pub proof fn lemma_entry_push<V>(entries: Seq<(String, V)>, key: String, value: V)
    requires
        lacks_key(entries, key@),
    ensures
        entry_map(entries.push((key, value))) == entry_map(entries).insert(key@, value),
    decreases entries.len(),
{
    let pushed = entries.push((key, value));
    if entries.len() == 0 {
        assert(pushed.drop_first() =~= entries);
    } else {
        let rest = entries.drop_first();
        assert forall|j: int| 0 <= j < rest.len() implies (#[trigger] rest[j]).0@ != key@ by {
            assert(rest[j] == entries[j + 1]);
        }
        lemma_entry_push(rest, key, value);
        assert(pushed.drop_first() =~= rest.push((key, value)));
        assert(entries[0].0@ != key@);
        assert(entry_map(pushed) =~= entry_map(entries).insert(key@, value));
    }
}

pub proof fn lemma_entry_remove<V>(entries: Seq<(String, V)>, i: int, key: Seq<char>)
    requires
        0 <= i < entries.len(),
        entries[i].0@ == key,
    ensures
        entry_map(entries.remove(i)).remove(key) == entry_map(entries).remove(key),
    decreases entries.len(),
{
    let removed = entries.remove(i);
    let rest = entries.drop_first();
    if i == 0 {
        assert(removed =~= rest);
        assert(entry_map(removed).remove(key) =~= entry_map(entries).remove(key));
    } else {
        assert(rest[i - 1] == entries[i]);
        lemma_entry_remove(rest, i - 1, key);
        assert(removed.drop_first() =~= rest.remove(i - 1));
        let a = entry_map(rest.remove(i - 1));
        let b = entry_map(rest);
        assert(removed[0] == entries[0]);
        let (first, value) = entries[0];
        assert(entry_map(removed) == a.insert(first@, value));
        assert(entry_map(entries) == b.insert(first@, value));
        assert(a.insert(first@, value).remove(key) =~= b.insert(first@, value).remove(key)) by {
            assert(a.remove(key) == b.remove(key));
            if first@ != key {
                assert(a.insert(first@, value).remove(key) =~= a.remove(key).insert(first@, value));
                assert(b.insert(first@, value).remove(key) =~= b.remove(key).insert(first@, value));
            } else {
                assert(a.insert(first@, value).remove(key) =~= a.remove(key));
                assert(b.insert(first@, value).remove(key) =~= b.remove(key));
            }
        }
    }
}

impl<V> StrMap<V> {
    pub fn new() -> (r: Self)
        ensures
            r@ == Map::<Seq<char>, V>::empty(),
    {
        StrMap { entries: Vec::new() }
    }

    /// The place of the entry that counts for a key.
    pub fn find(&self, key: &str) -> (r: Option<usize>)
        ensures
            match r {
                Some(i) => has_key_at(self.entries@, i as int, key@) && self@.contains_key(key@)
                    && self@[key@] == self.entries@[i as int].1,
                None => lacks_key(self.entries@, key@) && !self@.contains_key(key@),
            },
    {
        for i in 0..self.entries.len()
            invariant
                forall|j: int| 0 <= j < i ==> (#[trigger] self.entries@[j]).0@ != key@,
        {
            if same_text(self.entries[i].0.as_str(), key) {
                proof {
                    lemma_entry_at(self.entries@, i as int, key@);
                }
                return Some(i);
            }
        }
        proof {
            lemma_entry_absent(self.entries@, key@);
        }
        None
    }

    pub fn get(&self, key: &str) -> (r: Option<&V>)
        ensures
            match r {
                Some(v) => self@.contains_key(key@) && *v == self@[key@],
                None => !self@.contains_key(key@),
            },
    {
        match self.find(key) {
            Some(i) => Some(&self.entries[i].1),
            None => None,
        }
    }

    pub fn get_mut(&mut self, key: &str) -> (r: Option<&mut V>)
        ensures
            match r {
                Some(v) => {
                    &&& old(self)@.contains_key(key@)
                    &&& *v == old(self)@[key@]
                    &&& final(self)@ == old(self)@.insert(key@, *final(v))
                },
                None => !old(self)@.contains_key(key@) && *final(self) == *old(self),
            },
    {
        match self.find(key) {
            Some(i) => {
                proof {
                    assert forall|value: V|
                        entry_map(#[trigger] self.entries@.update(i as int, (self.entries@[i as int].0, value)))
                            == entry_map(self.entries@).insert(key@, value) by {
                        lemma_entry_update(self.entries@, i as int, self.entries@[i as int].0, value);
                    }
                }
                let entry: &mut (String, V) = &mut self.entries[i];
                Some(&mut entry.1)
            },
            None => None,
        }
    }

    pub fn contains_key(&self, key: &str) -> (r: bool)
        ensures
            r == self@.contains_key(key@),
    {
        self.find(key).is_some()
    }

    pub fn is_empty(&self) -> (r: bool)
        ensures
            r == (self@ == Map::<Seq<char>, V>::empty()),
    {
        if self.entries.len() > 0 {
            proof {
                lemma_entry_at(self.entries@, 0, self.entries@[0].0@);
            }
        }
        self.entries.len() == 0
    }

    pub fn insert(&mut self, key: String, value: V)
        ensures
            final(self)@ == old(self)@.insert(key@, value),
    {
        match self.find(key.as_str()) {
            Some(i) => {
                proof {
                    lemma_entry_update(self.entries@, i as int, key, value);
                }
                self.entries.set(i, (key, value));
            },
            None => {
                proof {
                    lemma_entry_push(self.entries@, key, value);
                }
                self.entries.push((key, value));
            },
        }
    }

    pub fn remove(&mut self, key: &str)
        ensures
            final(self)@ == old(self)@.remove(key@),
    {
        loop
            invariant
                self@.remove(key@) == old(self)@.remove(key@),
            ensures
                !self@.contains_key(key@),
            decreases self.entries@.len(),
        {
            match self.find(key) {
                Some(i) => {
                    proof {
                        lemma_entry_remove(self.entries@, i as int, key@);
                    }
                    self.entries.remove(i);
                },
                None => {
                    break ;
                },
            }
        }
        assert(self@ =~= self@.remove(key@));
    }

    pub fn clear(&mut self)
        ensures
            final(self)@ == Map::<Seq<char>, V>::empty(),
    {
        self.entries.clear();
    }

    /// The keys, each once.
    pub fn keys(&self) -> (r: Vec<String>)
        ensures
            texts(r@).no_duplicates(),
            forall|k: Seq<char>| #[trigger] self@.contains_key(k) == texts(r@).contains(k),
    {
        let mut r: Vec<String> = Vec::new();
        for i in 0..self.entries.len()
            invariant
                texts(r@).no_duplicates(),
                forall|j: int|
                    0 <= j < r@.len() ==> self@.contains_key((#[trigger] texts(r@)[j])),
                forall|j: int|
                    0 <= j < i ==> texts(r@).contains((#[trigger] self.entries@[j]).0@),
        {
            let key = &self.entries[i].0;
            let ghost before = texts(r@);
            match self.find(key.as_str()) {
                Some(first) => {
                    if first == i {
                        let mut seen = false;
                        for j in 0..r.len()
                            invariant
                                before == texts(r@),
                                seen == (exists|k: int| 0 <= k < j && before[k] == key@),
                        {
                            if same_text(r[j].as_str(), key.as_str()) {
                                assert(before[j as int] == key@);
                                seen = true;
                            }
                        }
                        if !seen {
                            r.push(key.clone());
                            proof {
                                assert(texts(r@) =~= before.push(key@));
                                assert(texts(r@)[before.len() as int] == key@);
                            }
                        }
                        assert forall|j: int| 0 <= j < i implies texts(r@).contains(
                            (#[trigger] self.entries@[j]).0@,
                        ) by {
                            let k = choose|k: int|
                                0 <= k < before.len() && before[k] == self.entries@[j].0@;
                            assert(texts(r@)[k] == before[k]);
                        }
                    } else {
                        assert(texts(r@).contains(self.entries@[first as int].0@));
                    }
                },
                None => {},
            }
        }
        assert forall|k: Seq<char>| #[trigger] self@.contains_key(k) implies texts(r@).contains(
            k,
        ) by {
            let i = lemma_entry_first(self.entries@, k);
            assert(texts(r@).contains(self.entries@[i].0@));
        }
        r
    }
}

} // verus!
