//! A table from names to values, whose values can be taken out again and whose entries can be
//! walked through.

use vstd::prelude::*;
use vstd::string::*;

verus! {

/// A table from names to values, in which no name occurs twice. Where values neither have to be
/// taken out nor walked through, vstd's `StringHashMap` serves as well.
#[derive(Debug)]
pub struct Table<V> {
    entries: Vec<(String, V)>,
}

/// The map that a list of entries stands for.
spec fn entries_map<V>(entries: Seq<(String, V)>) -> Map<Seq<char>, V>
    decreases entries.len(),
{
    if entries.len() == 0 {
        Map::empty()
    } else {
        entries_map(entries.drop_last()).insert(entries.last().0@, entries.last().1)
    }
}

spec fn distinct_names<V>(entries: Seq<(String, V)>) -> bool {
    forall|i: int, j: int|
        0 <= i < j < entries.len() ==> (#[trigger] entries[i]).0@ != (#[trigger] entries[j]).0@
}

proof fn lemma_entries_map<V>(entries: Seq<(String, V)>)
    requires
        distinct_names(entries),
    ensures
        forall|i: int|
            0 <= i < entries.len() ==> entries_map(entries).dom().contains(
                (#[trigger] entries[i]).0@,
            ) && entries_map(entries)[entries[i].0@] == entries[i].1,
        forall|name: Seq<char>| #[trigger]
            entries_map(entries).dom().contains(name) ==> exists|i: int|
                0 <= i < entries.len() && (#[trigger] entries[i]).0@ == name,
        entries_map(entries).dom().finite(),
        entries_map(entries).dom().len() == entries.len(),
    decreases entries.len(),
{
    if entries.len() > 0 {
        let front = entries.drop_last();
        let last = entries.last();
        assert(distinct_names(front)) by {
            assert forall|i: int, j: int| 0 <= i < j < front.len() implies (
            #[trigger] front[i]).0@ != (#[trigger] front[j]).0@ by {
                assert(entries[i].0@ != entries[j].0@);
            }
        }
        lemma_entries_map(front);
        let whole = entries_map(entries);
        assert(!entries_map(front).dom().contains(last.0@)) by {
            if entries_map(front).dom().contains(last.0@) {
                let i = choose|i: int| 0 <= i < front.len() && (#[trigger] front[i]).0@ == last.0@;
                assert(entries[i].0@ != entries[entries.len() - 1].0@);
            }
        }
        assert forall|i: int| 0 <= i < entries.len() implies whole.dom().contains(
            (#[trigger] entries[i]).0@,
        ) && whole[entries[i].0@] == entries[i].1 by {
            if i < front.len() {
                assert(front[i] == entries[i]);
                assert(entries[i].0@ != entries[entries.len() - 1].0@);
            }
        }
        assert forall|name: Seq<char>| #[trigger] whole.dom().contains(name) implies exists|i: int|
            0 <= i < entries.len() && (#[trigger] entries[i]).0@ == name by {
            if name == last.0@ {
                assert(entries[entries.len() - 1].0@ == name);
            } else {
                let i = choose|i: int| 0 <= i < front.len() && (#[trigger] front[i]).0@ == name;
                assert(entries[i].0@ == name);
            }
        }
        assert(whole.dom() =~= entries_map(front).dom().insert(last.0@));
    }
}

proof fn lemma_remove<V>(entries: Seq<(String, V)>, i: int)
    requires
        distinct_names(entries),
        0 <= i < entries.len(),
    ensures
        distinct_names(entries.remove(i)),
        entries_map(entries.remove(i)) == entries_map(entries).remove(entries[i].0@),
{
    let rest = entries.remove(i);
    assert forall|j: int, k: int| 0 <= j < k < rest.len() implies (#[trigger] rest[j]).0@ != (
    #[trigger] rest[k]).0@ by {
        let j2 = if j < i { j } else { j + 1 };
        let k2 = if k < i { k } else { k + 1 };
        assert(entries[j2].0@ != entries[k2].0@);
    }
    lemma_entries_map(entries);
    lemma_entries_map(rest);
    let left = entries_map(rest);
    let right = entries_map(entries).remove(entries[i].0@);
    assert forall|name: Seq<char>| left.dom().contains(name) == right.dom().contains(name) by {
        if left.dom().contains(name) {
            let j = choose|j: int| 0 <= j < rest.len() && (#[trigger] rest[j]).0@ == name;
            let j2 = if j < i { j } else { j + 1 };
            assert(rest[j] == entries[j2]);
            if j2 < i {
                assert(entries[j2].0@ != entries[i].0@);
            } else {
                assert(entries[i].0@ != entries[j2].0@);
            }
        }
        if right.dom().contains(name) {
            let j = choose|j: int| 0 <= j < entries.len() && (#[trigger] entries[j]).0@ == name;
            let j2 = if j < i { j } else { j - 1 };
            assert(rest[j2] == entries[j]);
        }
    }
    assert forall|name: Seq<char>| left.dom().contains(name) implies left[name] == right[name] by {
        let j = choose|j: int| 0 <= j < rest.len() && (#[trigger] rest[j]).0@ == name;
        let j2 = if j < i { j } else { j + 1 };
        assert(rest[j] == entries[j2]);
    }
    assert(left =~= right);
}

impl<V> View for Table<V> {
    type V = Map<Seq<char>, V>;

    closed spec fn view(&self) -> Map<Seq<char>, V> {
        entries_map(self.entries@)
    }
}

impl<V> Table<V> {
    /// No name occurs twice.
    pub closed spec fn well_formed(&self) -> bool {
        distinct_names(self.entries@)
    }

    /// The number of entries.
    pub closed spec fn size(&self) -> nat {
        self.entries@.len()
    }

    /// The name of entry `i`.
    pub closed spec fn name_at(&self, i: int) -> Seq<char> {
        self.entries@[i].0@
    }

    /// A table holds finitely many names: those of its entries, each once.
    pub proof fn lemma_entries(&self)
        requires
            self.well_formed(),
        ensures
            self@.dom().finite(),
            self@.dom().len() == self.size(),
            forall|i: int| 0 <= i < self.size() ==> self@.dom().contains(#[trigger] self.name_at(i)),
            forall|i: int, j: int|
                0 <= i < j < self.size() ==> #[trigger] self.name_at(i) != #[trigger] self.name_at(
                    j,
                ),
            forall|name: Seq<char>| #[trigger]
                self@.dom().contains(name) ==> exists|i: int|
                    0 <= i < self.size() && #[trigger] self.name_at(i) == name,
    {
        lemma_entries_map(self.entries@);
        assert forall|i: int| 0 <= i < self.size() implies self@.dom().contains(
            #[trigger] self.name_at(i),
        ) by {
            assert(self.entries@[i].0@ == self.name_at(i));
        }
        assert forall|name: Seq<char>| #[trigger] self@.dom().contains(name) implies exists|i: int|
            0 <= i < self.size() && #[trigger] self.name_at(i) == name by {
            let i = choose|i: int|
                0 <= i < self.entries@.len() && (#[trigger] self.entries@[i]).0@ == name;
            assert(self.name_at(i) == name);
        }
    }

    /// A table without entries.
    pub fn new() -> (table: Table<V>)
        ensures
            table.well_formed(),
            table@ == Map::<Seq<char>, V>::empty(),
    {
        Table { entries: Vec::new() }
    }

    /// The number of entries.
    pub fn len(&self) -> (n: usize)
        requires
            self.well_formed(),
        ensures
            n == self.size(),
            n == self@.dom().len(),
    {
        proof {
            lemma_entries_map(self.entries@);
        }
        self.entries.len()
    }

    /// Entry `i`: its name and its value.
    pub fn entry(&self, i: usize) -> (entry: (&String, &V))
        requires
            self.well_formed(),
            i < self.size(),
        ensures
            entry.0@ == self.name_at(i as int),
            self@.dom().contains(entry.0@),
            *entry.1 == self@[entry.0@],
    {
        proof {
            lemma_entries_map(self.entries@);
        }
        let entry = &self.entries[i];
        (&entry.0, &entry.1)
    }

    fn find(&self, name: &String) -> (slot: Option<usize>)
        requires
            self.well_formed(),
        ensures
            match slot {
                Some(i) => i < self.entries@.len() && self.entries@[i as int].0@ == name@,
                None => !self@.dom().contains(name@),
            },
    {
        let mut i: usize = 0;
        while i < self.entries.len()
            invariant
                i <= self.entries.len(),
                forall|j: int| 0 <= j < i ==> (#[trigger] self.entries@[j]).0@ != name@,
            decreases self.entries.len() - i,
        {
            if self.entries[i].0 == *name {
                return Some(i);
            }
            i += 1;
        }
        proof {
            lemma_entries_map(self.entries@);
        }
        None
    }

    /// The value that stands under a name.
    pub fn get(&self, name: &String) -> (value: Option<&V>)
        requires
            self.well_formed(),
        ensures
            match value {
                Some(v) => self@.dom().contains(name@) && *v == self@[name@],
                None => !self@.dom().contains(name@),
            },
    {
        match self.find(name) {
            Some(i) => {
                proof {
                    lemma_entries_map(self.entries@);
                }
                Some(&self.entries[i].1)
            },
            None => None,
        }
    }

    /// Takes out what stands under a name.
    pub fn remove(&mut self, name: &String) -> (value: Option<V>)
        requires
            old(self).well_formed(),
        ensures
            final(self).well_formed(),
            final(self)@ == old(self)@.remove(name@),
            match value {
                Some(v) => old(self)@.dom().contains(name@) && v == old(self)@[name@],
                None => !old(self)@.dom().contains(name@),
            },
    {
        match self.find(name) {
            Some(i) => {
                proof {
                    lemma_entries_map(self.entries@);
                    lemma_remove(self.entries@, i as int);
                }
                let entry = self.entries.remove(i);
                Some(entry.1)
            },
            None => {
                assert(self@.remove(name@) =~= self@);
                None
            },
        }
    }

    /// Puts a value under a name, in place of what stood there.
    pub fn insert(&mut self, name: String, value: V)
        requires
            old(self).well_formed(),
        ensures
            final(self).well_formed(),
            final(self)@ == old(self)@.insert(name@, value),
    {
        let ghost before = self@;
        let _ = self.remove(&name);
        let ghost entries = self.entries@;
        proof {
            lemma_entries_map(entries);
            assert forall|i: int| 0 <= i < entries.len() implies (#[trigger] entries[i]).0@
                != name@ by {
                assert(entries_map(entries).dom().contains(entries[i].0@));
            }
        }
        self.entries.push((name, value));
        proof {
            assert(self.entries@.drop_last() == entries);
            assert(before.remove(name@).insert(name@, value) =~= before.insert(name@, value));
        }
    }
}

} // verus!
