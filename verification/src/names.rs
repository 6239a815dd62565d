//! Values kept under names, each name at most once.
use vstd::prelude::*;

use crate::text::same;

verus! {

/// A map from names to values.
#[derive(Debug)]
pub struct NameMap<V> {
    entries: Vec<(String, V)>,
}

/// The place of a name in a list of entries.
spec fn place<V>(entries: Seq<(String, V)>, name: Seq<char>) -> int {
    choose|i: int| 0 <= i < entries.len() && (#[trigger] entries[i]).0@ == name
}

spec fn holds<V>(entries: Seq<(String, V)>, name: Seq<char>) -> bool {
    exists|i: int| 0 <= i < entries.len() && (#[trigger] entries[i]).0@ == name
}

spec fn distinct<V>(entries: Seq<(String, V)>) -> bool {
    forall|i: int, j: int|
        0 <= i < j < entries.len() ==> (#[trigger] entries[i]).0@ != (#[trigger] entries[j]).0@
}

spec fn contents<V>(entries: Seq<(String, V)>) -> Map<Seq<char>, V> {
    Map::new(|name: Seq<char>| holds(entries, name), |name: Seq<char>| entries[place(entries, name)].1)
}

proof fn lemma_at<V>(entries: Seq<(String, V)>, i: int)
    requires
        distinct(entries),
        0 <= i < entries.len(),
    ensures
        contents(entries).contains_key(entries[i].0@),
        contents(entries)[entries[i].0@] == entries[i].1,
{
    let name = entries[i].0@;
    assert(holds(entries, name));
    let p = place(entries, name);
    assert(entries[p].0@ == name);
    assert(p == i);
}

impl<V> View for NameMap<V> {
    type V = Map<Seq<char>, V>;

    closed spec fn view(&self) -> Map<Seq<char>, V> {
        contents(self.entries@)
    }
}

impl<V> NameMap<V> {
    #[verifier::type_invariant]
    spec fn well_formed(self) -> bool {
        distinct(self.entries@)
    }

    /// The names, in the order in which `at` hands them out.
    pub closed spec fn names(self) -> Seq<Seq<char>> {
        self.entries@.map_values(|entry: (String, V)| entry.0@)
    }

    pub fn new() -> (r: Self)
        ensures
            r@ == Map::<Seq<char>, V>::empty(),
    {
        let r = NameMap { entries: Vec::new() };
        assert(r@ =~= Map::<Seq<char>, V>::empty());
        r
    }

    fn find(&self, name: &str) -> (r: Option<usize>)
        ensures
            match r {
                Some(i) => i < self.entries@.len() && self.entries@[i as int].0@ == name@,
                None => !holds(self.entries@, name@),
            },
    {
        for i in 0..self.entries.len()
            invariant
                forall|j: int| 0 <= j < i ==> (#[trigger] self.entries@[j]).0@ != name@,
        {
            if same(self.entries[i].0.as_str(), name) {
                return Some(i);
            }
        }
        None
    }

    pub fn get(&self, name: &str) -> (r: Option<&V>)
        ensures
            match r {
                Some(value) => self@.contains_key(name@) && *value == self@[name@],
                None => !self@.contains_key(name@),
            },
    {
        proof {
            use_type_invariant(self);
        }
        match self.find(name) {
            Some(i) => {
                proof {
                    lemma_at(self.entries@, i as int);
                }
                Some(&self.entries[i].1)
            },
            None => None,
        }
    }

    pub fn contains(&self, name: &str) -> (r: bool)
        ensures
            r == self@.contains_key(name@),
    {
        self.get(name).is_some()
    }

    /// How many names there are: each that holds a value, once.
    pub fn len(&self) -> (r: usize)
        ensures
            r == self.names().len(),
            self.names().no_duplicates(),
            forall|name: Seq<char>| #[trigger]
                self@.contains_key(name) <==> self.names().contains(name),
    {
        proof {
            use_type_invariant(self);
            assert forall|name: Seq<char>| #[trigger]
                self@.contains_key(name) <==> self.names().contains(name) by {
                if holds(self.entries@, name) {
                    let i = place(self.entries@, name);
                    assert(self.names()[i] == name);
                }
                if self.names().contains(name) {
                    let i = self.names().index_of(name);
                    assert(self.entries@[i].0@ == name);
                }
            }
        }
        self.entries.len()
    }

    /// The entry at a place, for going through all of them.
    pub fn at(&self, i: usize) -> (r: (&String, &V))
        requires
            i < self.names().len(),
        ensures
            r.0@ == self.names()[i as int],
            self@.contains_key(r.0@),
            *r.1 == self@[r.0@],
    {
        proof {
            use_type_invariant(self);
            lemma_at(self.entries@, i as int);
        }
        let entry = &self.entries[i];
        (&entry.0, &entry.1)
    }

    /// Puts a value under a name, in place of the one that was there.
    pub fn insert(&mut self, name: String, value: V)
        ensures
            final(self)@ == old(self)@.insert(name@, value),
    {
        proof {
            use_type_invariant(&*self);
        }
        let found = self.find(name.as_str());
        let mut entries: Vec<(String, V)> = Vec::new();
        std::mem::swap(&mut entries, &mut self.entries);
        let ghost before = entries@;
        match found {
            Some(i) => {
                entries.set(i, (name, value));
                proof {
                    assert(distinct(entries@));
                    lemma_set(before, i as int, (name, value));
                }
            },
            None => {
                entries.push((name, value));
                proof {
                    lemma_push(before, (name, value));
                }
            },
        }
        self.entries = entries;
    }

    /// Takes a name and its value out.
    pub fn remove(&mut self, name: &str) -> (r: Option<V>)
        ensures
            match r {
                Some(value) => old(self)@.contains_key(name@) && value == old(self)@[name@]
                    && final(self)@ == old(self)@.remove(name@),
                None => !old(self)@.contains_key(name@) && final(self)@ == old(self)@,
            },
    {
        proof {
            use_type_invariant(&*self);
        }
        let found = self.find(name);
        match found {
            Some(i) => {
                let mut entries: Vec<(String, V)> = Vec::new();
                std::mem::swap(&mut entries, &mut self.entries);
                let ghost before = entries@;
                let entry = entries.remove(i);
                proof {
                    lemma_remove(before, i as int);
                }
                self.entries = entries;
                Some(entry.1)
            },
            None => None,
        }
    }

    /// Keeps the listed names and drops the others with their values.
    pub fn keep_only(&mut self, names: &Vec<String>)
        ensures
            final(self)@ == old(self)@.restrict(listed(names@)),
    {
        proof {
            use_type_invariant(&*self);
        }
        let mut entries: Vec<(String, V)> = Vec::new();
        std::mem::swap(&mut entries, &mut self.entries);
        let ghost before = entries@;
        let mut i: usize = 0;
        while i < entries.len()
            invariant
                i <= entries@.len(),
                distinct(entries@),
                forall|j: int| 0 <= j < i ==> listed(names@).contains((#[trigger] entries@[j]).0@),
                forall|name: Seq<char>|
                    listed(names@).contains(name) && contents(before).contains_key(name)
                        ==> #[trigger] contents(entries@).contains_key(name),
                forall|name: Seq<char>| #[trigger]
                    contents(entries@).contains_key(name) ==> contents(before).contains_key(name)
                        && contents(entries@)[name] == contents(before)[name],
            decreases entries@.len() - i,
        {
            if is_listed(names, entries[i].0.as_str()) {
                i = i + 1;
            } else {
                let ghost here = entries@;
                let _ = entries.remove(i);
                proof {
                    lemma_remove(here, i as int);
                }
            }
        }
        proof {
            assert forall|name: Seq<char>| #[trigger]
                contents(entries@).contains_key(name) implies listed(names@).contains(name) by {
                let j = place(entries@, name);
                assert(entries@[j].0@ == name);
            }
            assert(contents(entries@) =~= contents(before).restrict(listed(names@)));
        }
        self.entries = entries;
    }
}

/// The names that a list holds.
pub open spec fn listed(names: Seq<String>) -> Set<Seq<char>> {
    names.map_values(|name: String| name@).to_set()
}

/// Whether a list of names holds a name.
pub fn is_listed(names: &Vec<String>, name: &str) -> (r: bool)
    ensures
        r == listed(names@).contains(name@),
{
    let ghost texts = names@.map_values(|name: String| name@);
    for i in 0..names.len()
        invariant
            texts == names@.map_values(|name: String| name@),
            forall|j: int| 0 <= j < i ==> (#[trigger] names@[j])@ != name@,
    {
        if same(names[i].as_str(), name) {
            assert(texts[i as int] == name@);
            return true;
        }
    }
    proof {
        if texts.contains(name@) {
            let j = texts.index_of(name@);
            assert(names@[j]@ == name@);
        }
    }
    false
}

/// The map that the pairs make when put in one after the other, so that the last of a name stays.
pub open spec fn collected<V>(pairs: Seq<(String, V)>) -> Map<Seq<char>, V>
    decreases pairs.len(),
{
    if pairs.len() == 0 {
        Map::empty()
    } else {
        collected(pairs.drop_last()).insert(pairs.last().0@, pairs.last().1)
    }
}

/// Puts pairs into a map one after the other.
pub fn collect<V>(pairs: Vec<(String, V)>) -> (r: NameMap<V>)
    ensures
        r@ == collected(pairs@),
{
    let mut map: NameMap<V> = NameMap::new();
    let ghost all = pairs@;
    for pair in it: pairs
        invariant
            it.seq() == all,
            map@ == collected(all.take(it.index() as int)),
    {
        let (name, value) = pair;
        map.insert(name, value);
        assert(all.take(it.index() + 1).drop_last() =~= all.take(it.index() as int));
    }
    assert(all.take(all.len() as int) =~= all);
    map
}

proof fn lemma_push<V>(entries: Seq<(String, V)>, entry: (String, V))
    requires
        distinct(entries),
        !holds(entries, entry.0@),
    ensures
        distinct(entries.push(entry)),
        contents(entries.push(entry)) == contents(entries).insert(entry.0@, entry.1),
{
    let after = entries.push(entry);
    assert(distinct(after)) by {
        assert forall|i: int, j: int| 0 <= i < j < after.len() implies (#[trigger] after[i]).0@ != (
        #[trigger] after[j]).0@ by {
            assert(after[i] == entries[i]);
        }
    }
    assert forall|name: Seq<char>| #[trigger] contents(after).contains_key(name) <==> contents(
        entries,
    ).insert(entry.0@, entry.1).contains_key(name) by {
        if holds(entries, name) {
            let i = place(entries, name);
            assert(after[i].0@ == name);
        }
        assert(after[entries.len() as int].0@ == entry.0@);
        if holds(after, name) {
            let i = place(after, name);
            if i < entries.len() {
                assert(entries[i].0@ == name);
            }
        }
    }
    assert forall|name: Seq<char>| #[trigger] contents(after).contains_key(name) implies contents(
        after,
    )[name] == contents(entries).insert(entry.0@, entry.1)[name] by {
        let i = place(after, name);
        assert(after[i].0@ == name);
        if i < entries.len() {
            assert(entries[i].0@ == name);
            lemma_at(entries, i);
        }
    }
    assert(contents(after) =~= contents(entries).insert(entry.0@, entry.1));
}

proof fn lemma_set<V>(entries: Seq<(String, V)>, at: int, entry: (String, V))
    requires
        distinct(entries),
        0 <= at < entries.len(),
        entries[at].0@ == entry.0@,
    ensures
        distinct(entries.update(at, entry)),
        contents(entries.update(at, entry)) == contents(entries).insert(entry.0@, entry.1),
{
    let after = entries.update(at, entry);
    assert(distinct(after));
    assert forall|name: Seq<char>| #[trigger] contents(after).contains_key(name) <==> contents(
        entries,
    ).insert(entry.0@, entry.1).contains_key(name) by {
        if holds(entries, name) {
            let i = place(entries, name);
            assert(after[i].0@ == name);
        }
        assert(after[at].0@ == entry.0@);
        if holds(after, name) {
            let i = place(after, name);
            assert(entries[i].0@ == name);
        }
    }
    assert forall|name: Seq<char>| #[trigger] contents(after).contains_key(name) implies contents(
        after,
    )[name] == contents(entries).insert(entry.0@, entry.1)[name] by {
        let i = place(after, name);
        assert(after[i].0@ == name);
        assert(entries[i].0@ == name);
        lemma_at(entries, i);
    }
    assert(contents(after) =~= contents(entries).insert(entry.0@, entry.1));
}

proof fn lemma_remove<V>(entries: Seq<(String, V)>, at: int)
    requires
        distinct(entries),
        0 <= at < entries.len(),
    ensures
        distinct(entries.remove(at)),
        contents(entries).contains_key(entries[at].0@),
        contents(entries)[entries[at].0@] == entries[at].1,
        contents(entries.remove(at)) == contents(entries).remove(entries[at].0@),
{
    let after = entries.remove(at);
    let gone = entries[at].0@;
    lemma_at(entries, at);
    assert forall|i: int| 0 <= i < after.len() implies #[trigger] after[i] == entries[if i < at {
        i
    } else {
        i + 1
    }] by {}
    assert(distinct(after)) by {
        assert forall|i: int, j: int| 0 <= i < j < after.len() implies (#[trigger] after[i]).0@ != (
        #[trigger] after[j]).0@ by {}
    }
    assert forall|name: Seq<char>| #[trigger] contents(after).contains_key(name) <==> contents(
        entries,
    ).remove(gone).contains_key(name) by {
        if holds(entries, name) && name != gone {
            let i = place(entries, name);
            assert(entries[i].0@ == name);
            if i < at {
                assert(after[i].0@ == name);
            } else {
                assert(after[i - 1].0@ == name);
            }
        }
        if holds(after, name) {
            let i = place(after, name);
            assert(after[i].0@ == name);
            let k = if i < at {
                i
            } else {
                i + 1
            };
            assert(entries[k].0@ == name);
        }
    }
    assert forall|name: Seq<char>| #[trigger] contents(after).contains_key(name) implies contents(
        after,
    )[name] == contents(entries).remove(gone)[name] by {
        let i = place(after, name);
        assert(after[i].0@ == name);
        let k = if i < at {
            i
        } else {
            i + 1
        };
        assert(entries[k].0@ == name);
        lemma_at(entries, k);
    }
    assert(contents(after) =~= contents(entries).remove(gone));
}

} // verus!
