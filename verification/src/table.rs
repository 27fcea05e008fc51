//! A table from names to values, in which no name occurs twice.

use vstd::prelude::*;

verus! {

/// A table from names to values.
pub struct NameTable<V> {
    entries: Vec<(String, V)>,
}

impl<V> View for NameTable<V> {
    type V = Map<Seq<char>, V>;

    closed spec fn view(&self) -> Map<Seq<char>, V> {
        contents(self.entries@)
    }
}

/// Where a name stands in a list of entries.
spec fn names_at<V>(entries: Seq<(String, V)>, name: Seq<char>, i: int) -> bool {
    0 <= i < entries.len() && entries[i].0@ == name
}

/// Whether a name stands in a list of entries.
spec fn has_name<V>(entries: Seq<(String, V)>, name: Seq<char>) -> bool {
    exists|i: int| names_at(entries, name, i)
}

/// The map that a list of entries stands for, the last of equal names first.
spec fn contents<V>(entries: Seq<(String, V)>) -> Map<Seq<char>, V>
    decreases entries.len(),
{
    if entries.len() == 0 {
        Map::empty()
    } else {
        contents(entries.drop_last()).insert(entries.last().0@, entries.last().1)
    }
}

/// Whether every name of a list of entries occurs once.
spec fn distinct_names<V>(entries: Seq<(String, V)>) -> bool {
    forall|i: int, j: int|
        0 <= i < j < entries.len() ==> (#[trigger] entries[i]).0@ != (#[trigger] entries[j]).0@
}

proof fn lemma_contents<V>(entries: Seq<(String, V)>)
    requires
        distinct_names(entries),
    ensures
        contents(entries).dom().finite(),
        contents(entries).dom().len() == entries.len(),
        forall|name: Seq<char>| #[trigger]
            contents(entries).contains_key(name) <==> has_name(entries, name),
        forall|i: int|
            0 <= i < entries.len() ==> contents(entries)[(#[trigger] entries[i]).0@]
                == entries[i].1,
    decreases entries.len(),
{
    if entries.len() > 0 {
        let rest = entries.drop_last();
        let name = entries.last().0@;
        assert forall|i: int, j: int| 0 <= i < j < rest.len() implies (#[trigger] rest[i]).0@ != (
        #[trigger] rest[j]).0@ by {
            assert(rest[i] == entries[i] && rest[j] == entries[j]);
        }
        lemma_contents(rest);
        assert(!has_name(rest, name)) by {
            if has_name(rest, name) {
                let i = choose|i: int| names_at(rest, name, i);
                assert(entries[i].0@ != entries[entries.len() - 1].0@);
            }
        }
        assert forall|other: Seq<char>| contents(entries).contains_key(other) <==> has_name(
            entries,
            other,
        ) by {
            if other == name {
                assert(names_at(entries, other, entries.len() - 1));
            } else if has_name(rest, other) {
                let i = choose|i: int| names_at(rest, other, i);
                assert(names_at(entries, other, i));
            } else if has_name(entries, other) {
                let i = choose|i: int| names_at(entries, other, i);
                assert(names_at(rest, other, i));
            }
        }
        assert forall|i: int| 0 <= i < entries.len() implies contents(entries)[(
        #[trigger] entries[i]).0@] == entries[i].1 by {
            if i < rest.len() {
                assert(rest[i] == entries[i]);
                assert(entries[i].0@ != entries[entries.len() - 1].0@);
            }
        }
    }
}

/// Taking one entry out, the last one put in its place, takes its name out.
proof fn lemma_swap_remove<V>(before: Seq<(String, V)>, after: Seq<(String, V)>, index: int)
    requires
        distinct_names(before),
        0 <= index < before.len(),
        after == before.update(index, before.last()).drop_last(),
    ensures
        distinct_names(after),
        contents(after) == contents(before).remove(before[index].0@),
{
    assert forall|i: int, j: int| 0 <= i < j < after.len() implies (#[trigger] after[i]).0@ != (
    #[trigger] after[j]).0@ by {
        let a = if i == index {
            before.len() - 1
        } else {
            i
        };
        let b = if j == index {
            before.len() - 1
        } else {
            j
        };
        assert(after[i] == before[a] && after[j] == before[b]);
        if a < b {
            assert(before[a].0@ != before[b].0@);
        } else {
            assert(before[b].0@ != before[a].0@);
        }
    }
    lemma_contents(before);
    lemma_contents(after);
    let removed = contents(before).remove(before[index].0@);
    assert forall|name: Seq<char>| contents(after).contains_key(name) <==> removed.contains_key(
        name,
    ) by {
        if has_name(after, name) {
            let i = choose|i: int| names_at(after, name, i);
            let a = if i == index {
                before.len() - 1
            } else {
                i
            };
            assert(names_at(before, name, a));
            if a < index {
                assert(before[a].0@ != before[index].0@);
            } else {
                assert(before[index].0@ != before[a].0@);
            }
        }
        if has_name(before, name) && name != before[index].0@ {
            let a = choose|a: int| names_at(before, name, a);
            let i = if a == before.len() - 1 {
                index
            } else {
                a
            };
            assert(names_at(after, name, i));
        }
    }
    assert forall|name: Seq<char>| contents(after).contains_key(name) implies contents(
        after,
    )[name] == removed[name] by {
        assert(has_name(after, name));
        let i = choose|i: int| names_at(after, name, i);
        let a = if i == index {
            before.len() - 1
        } else {
            i
        };
        assert(after[i] == before[a]);
        assert(contents(after)[after[i].0@] == after[i].1);
        assert(contents(before)[before[a].0@] == before[a].1);
    }
    assert(contents(after) =~= removed);
}

impl<V> NameTable<V> {
    /// No name occurs twice.
    pub closed spec fn wf(&self) -> bool {
        distinct_names(self.entries@)
    }

    /// An empty table.
    pub fn new() -> (table: NameTable<V>)
        ensures
            table.wf(),
            table@ == Map::<Seq<char>, V>::empty(),
    {
        NameTable { entries: Vec::new() }
    }

    fn position(&self, name: &String) -> (found: Option<usize>)
        requires
            self.wf(),
        ensures
            match found {
                Some(i) => names_at(self.entries@, name@, i as int) && self@.contains_key(name@)
                    && self@[name@] == self.entries@[i as int].1,
                None => !has_name(self.entries@, name@) && !self@.contains_key(name@),
            },
    {
        let mut i: usize = 0;
        proof {
            lemma_contents(self.entries@);
        }
        while i < self.entries.len()
            invariant
                i <= self.entries@.len(),
                forall|j: int| 0 <= j < i ==> (#[trigger] self.entries@[j]).0@ != name@,
                forall|n: Seq<char>|
                    self@.contains_key(n) <==> has_name(self.entries@, n),
                forall|j: int|
                    0 <= j < self.entries@.len() ==> self@[(#[trigger] self.entries@[j]).0@]
                        == self.entries@[j].1,
            decreases self.entries@.len() - i,
        {
            if self.entries[i].0 == *name {
                assert(names_at(self.entries@, name@, i as int));
                return Some(i);
            }
            i += 1;
        }
        None
    }

    /// How many names the table holds.
    pub fn len(&self) -> (count: usize)
        requires
            self.wf(),
        ensures
            self@.dom().finite(),
            count == self@.dom().len(),
    {
        proof {
            lemma_contents(self.entries@);
        }
        self.entries.len()
    }

    /// Whether the table holds a name.
    pub fn contains_key(&self, name: &String) -> (present: bool)
        requires
            self.wf(),
        ensures
            present == self@.contains_key(name@),
    {
        self.position(name).is_some()
    }

    /// The value under a name.
    pub fn get(&self, name: &String) -> (value: Option<&V>)
        requires
            self.wf(),
        ensures
            match value {
                Some(v) => self@.contains_key(name@) && *v == self@[name@],
                None => !self@.contains_key(name@),
            },
    {
        match self.position(name) {
            Some(i) => Some(&self.entries[i].1),
            None => None,
        }
    }

    /// Takes a name out, and gives back the value that was under it.
    pub fn remove(&mut self, name: &String) -> (previous: Option<V>)
        requires
            old(self).wf(),
        ensures
            final(self).wf(),
            final(self)@ == old(self)@.remove(name@),
            match previous {
                Some(v) => old(self)@.contains_key(name@) && v == old(self)@[name@],
                None => !old(self)@.contains_key(name@),
            },
    {
        match self.position(name) {
            Some(i) => {
                let ghost before = self.entries@;
                let (_, value) = self.entries.swap_remove(i);
                proof {
                    lemma_swap_remove(before, self.entries@, i as int);
                }
                Some(value)
            },
            None => {
                assert(self@.remove(name@) =~= self@);
                None
            },
        }
    }

    /// Puts a value under a name, and gives back the value that was there.
    pub fn insert(&mut self, name: String, value: V) -> (previous: Option<V>)
        requires
            old(self).wf(),
        ensures
            final(self).wf(),
            final(self)@ == old(self)@.insert(name@, value),
            match previous {
                Some(v) => old(self)@.contains_key(name@) && v == old(self)@[name@],
                None => !old(self)@.contains_key(name@),
            },
    {
        let previous = self.remove(&name);
        let ghost before = self.entries@;
        proof {
            lemma_contents(before);
            assert(!contents(before).contains_key(name@));
            assert(!has_name(before, name@));
        }
        self.entries.push((name, value));
        proof {
            assert(self.entries@.drop_last() =~= before);
            assert forall|i: int, j: int| 0 <= i < j < self.entries@.len() implies (
            #[trigger] self.entries@[i]).0@ != (#[trigger] self.entries@[j]).0@ by {
                if j == before.len() {
                    assert(self.entries@[i] == before[i]);
                    if self.entries@[i].0@ == name@ {
                        assert(names_at(before, name@, i));
                    }
                } else {
                    assert(self.entries@[i] == before[i] && self.entries@[j] == before[j]);
                    assert(before[i].0@ != before[j].0@);
                }
            }
            assert(self@ =~= old(self)@.insert(name@, value));
        }
        previous
    }
}

} // verus!
