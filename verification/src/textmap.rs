use vstd::prelude::*;

use crate::text::same_text;

verus! {

/// The map that a list of key/value writes leaves behind: a later write of
/// a key replaces an earlier one.
pub open spec fn map_of_entries(entries: Seq<(String, String)>) -> Map<Seq<char>, Seq<char>>
    decreases entries.len(),
{
    if entries.len() == 0 {
        Map::empty()
    } else {
        map_of_entries(entries.drop_last()).insert(entries.last().0@, entries.last().1@)
    }
}

/// A map from texts to texts.
pub struct TextMap {
    entries: Vec<(String, String)>,
}

impl View for TextMap {
    type V = Map<Seq<char>, Seq<char>>;

    closed spec fn view(&self) -> Map<Seq<char>, Seq<char>> {
        map_of_entries(self.entries@)
    }
}

proof fn lemma_absent(entries: Seq<(String, String)>, key: Seq<char>)
    requires
        forall|j: int| 0 <= j < entries.len() ==> (#[trigger] entries[j]).0@ != key,
    ensures
        !map_of_entries(entries).contains_key(key),
    decreases entries.len(),
{
    if entries.len() > 0 {
        let rest = entries.drop_last();
        assert forall|j: int| 0 <= j < rest.len() implies (#[trigger] rest[j]).0@ != key by {
            assert(rest[j] == entries[j]);
        }
        lemma_absent(rest, key);
    }
}

proof fn lemma_last_write(entries: Seq<(String, String)>, key: Seq<char>, i: int)
    requires
        0 <= i < entries.len(),
        entries[i].0@ == key,
        forall|j: int| i < j < entries.len() ==> (#[trigger] entries[j]).0@ != key,
    ensures
        map_of_entries(entries).contains_key(key),
        map_of_entries(entries)[key] == entries[i].1@,
    decreases entries.len(),
{
    if i < entries.len() - 1 {
        let rest = entries.drop_last();
        assert(rest[i] == entries[i]);
        assert forall|j: int| i < j < rest.len() implies (#[trigger] rest[j]).0@ != key by {
            assert(rest[j] == entries[j]);
        }
        lemma_last_write(rest, key, i);
    }
}

impl TextMap {
    pub fn new() -> (m: Self)
        ensures
            m@ == Map::<Seq<char>, Seq<char>>::empty(),
    {
        TextMap { entries: Vec::new() }
    }

    /// A copy of the map.
    pub fn copy(&self) -> (m: Self)
        ensures
            m@ == self@,
    {
        let mut entries: Vec<(String, String)> = Vec::new();
        for i in 0..self.entries.len()
            invariant
                entries@.len() == i,
                i <= self.entries@.len(),
                forall|j: int| 0 <= j < i ==> #[trigger] entries@[j] == self.entries@[j],
        {
            entries.push((self.entries[i].0.clone(), self.entries[i].1.clone()));
        }
        assert(entries@ =~= self.entries@);
        TextMap { entries }
    }

    /// Sets the value of a key, replacing what it had.
    pub fn insert(&mut self, key: String, value: String)
        ensures
            final(self)@ == old(self)@.insert(key@, value@),
    {
        let ghost before = self.entries@;
        self.entries.push((key, value));
        assert(self.entries@.drop_last() =~= before);
    }

    /// The value of a key, if it has one.
    pub fn get(&self, key: &str) -> (res: Option<&String>)
        ensures
            res is Some <==> self@.contains_key(key@),
            res matches Some(v) ==> v@ == self@[key@],
    {
        let mut i = self.entries.len();
        while i > 0
            invariant
                i <= self.entries@.len(),
                forall|j: int| i <= j < self.entries@.len() ==> (#[trigger] self.entries@[j]).0@ != key@,
            decreases i,
        {
            if same_text(self.entries[i - 1].0.as_str(), key) {
                proof {
                    lemma_last_write(self.entries@, key@, i - 1);
                }
                return Some(&self.entries[i - 1].1);
            }
            i = i - 1;
        }
        proof {
            lemma_absent(self.entries@, key@);
        }
        None
    }

    /// Takes a key out of the map and gives back the value it had.
    pub fn remove(&mut self, key: &str) -> (res: Option<String>)
        ensures
            final(self)@ == old(self)@.remove(key@),
            res is Some <==> old(self)@.contains_key(key@),
            res matches Some(v) ==> v@ == old(self)@[key@],
    {
        let found = match self.get(key) {
            Some(v) => Some(v.clone()),
            None => None,
        };
        let mut kept: Vec<(String, String)> = Vec::new();
        let n = self.entries.len();
        for i in 0..n
            invariant
                n == self.entries@.len(),
                map_of_entries(kept@) =~= map_of_entries(self.entries@.take(i as int)).remove(key@),
        {
            let ghost before = kept@;
            let entry_key = self.entries[i].0.clone();
            let entry_value = self.entries[i].1.clone();
            assert(self.entries@.take(i + 1).drop_last() =~= self.entries@.take(i as int));
            if !same_text(entry_key.as_str(), key) {
                kept.push((entry_key, entry_value));
                assert(kept@.drop_last() =~= before);
            }
        }
        assert(self.entries@.take(n as int) =~= self.entries@);
        self.entries = kept;
        found
    }
}

} // verus!
