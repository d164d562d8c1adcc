//! A map from names to values that remembers each name once.

use vstd::prelude::*;

verus! {

/// A value for each of some names.
#[derive(Debug)]
pub struct NameMap<V> {
    entries: Vec<(String, V)>,
}

/// `name` is the name of the entry at some place.
spec fn listed<V>(entries: Seq<(String, V)>, name: Seq<char>) -> bool {
    exists|i: int| 0 <= i < entries.len() && (#[trigger] entries[i]).0@ == name
}

/// The place of the entry for `name`.
spec fn place<V>(entries: Seq<(String, V)>, name: Seq<char>) -> int {
    choose|i: int| 0 <= i < entries.len() && (#[trigger] entries[i]).0@ == name
}

/// No name occurs twice.
spec fn distinct<V>(entries: Seq<(String, V)>) -> bool {
    forall|i: int, j: int|
        0 <= i < entries.len() && 0 <= j < entries.len() && (#[trigger] entries[i]).0@ == (
        #[trigger] entries[j]).0@ ==> i == j
}

spec fn as_map<V>(entries: Seq<(String, V)>) -> Map<Seq<char>, V> {
    Map::new(|name: Seq<char>| listed(entries, name), |name: Seq<char>| entries[place(entries, name)].1)
}

impl<V> View for NameMap<V> {
    type V = Map<Seq<char>, V>;

    closed spec fn view(&self) -> Map<Seq<char>, V> {
        as_map(self.entries@)
    }
}

impl<V> NameMap<V> {
    #[verifier::type_invariant]
    spec fn each_name_once(self) -> bool {
        distinct(self.entries@)
    }

    /// The map without any name.
    pub fn new() -> (r: Self)
        ensures
            r@ == Map::<Seq<char>, V>::empty(),
    {
        let r = NameMap { entries: Vec::new() };
        assert(r@ =~= Map::<Seq<char>, V>::empty());
        r
    }

    fn position(&self, name: &str) -> (r: Option<usize>)
        ensures
            match r {
                Some(i) => i < self.entries@.len() && self.entries@[i as int].0@ == name@,
                None => !listed(self.entries@, name@),
            },
    {
        let key: String = name.to_owned();
        let mut i: usize = 0;
        while i < self.entries.len()
            invariant
                i <= self.entries@.len(),
                key@ == name@,
                forall|j: int| 0 <= j < i ==> (#[trigger] self.entries@[j]).0@ != name@,
            decreases self.entries@.len() - i,
        {
            if self.entries[i].0 == key {
                return Some(i);
            }
            i = i + 1;
        }
        None
    }

    /// The value of `name`, if it has one.
    pub fn get(&self, name: &str) -> (r: Option<&V>)
        ensures
            match r {
                Some(v) => self@.contains_key(name@) && self@[name@] == *v,
                None => !self@.contains_key(name@),
            },
    {
        proof {
            use_type_invariant(self);
        }
        match self.position(name) {
            Some(i) => {
                assert(self.entries@[i as int].0@ == name@);
                Some(&self.entries[i].1)
            },
            None => None,
        }
    }

    /// Whether `name` has a value.
    pub fn contains_key(&self, name: &str) -> (r: bool)
        ensures
            r == self@.contains_key(name@),
    {
        match self.position(name) {
            Some(i) => {
                assert(self.entries@[i as int].0@ == name@);
                true
            },
            None => false,
        }
    }

    /// Gives `name` a value, in place of the one that it may have had.
    pub fn insert(&mut self, name: String, value: V)
        ensures
            final(self)@ == old(self)@.insert(name@, value),
    {
        proof {
            use_type_invariant(&*self);
        }
        let found: Option<usize> = self.position(name.as_str());
        let mut entries: Vec<(String, V)> = Vec::new();
        std::mem::swap(&mut entries, &mut self.entries);
        let ghost before = entries@;
        match found {
            Some(i) => {
                entries.set(i, (name, value));
                proof {
                    lemma_replaced(before, i as int, name, value);
                }
            },
            None => {
                entries.push((name, value));
                proof {
                    lemma_added(before, name, value);
                }
            },
        }
        self.entries = entries;
    }

    /// Takes the value of `name` away.
    pub fn remove(&mut self, name: &str) -> (r: Option<V>)
        ensures
            final(self)@ == old(self)@.remove(name@),
            match r {
                Some(v) => old(self)@.contains_key(name@) && old(self)@[name@] == v,
                None => !old(self)@.contains_key(name@),
            },
    {
        proof {
            use_type_invariant(&*self);
        }
        let found: Option<usize> = self.position(name);
        match found {
            Some(i) => {
                let mut entries: Vec<(String, V)> = Vec::new();
                std::mem::swap(&mut entries, &mut self.entries);
                proof {
                    lemma_taken(entries@, i as int);
                }
                let taken: (String, V) = entries.remove(i);
                self.entries = entries;
                Some(taken.1)
            },
            None => {
                assert(self@ =~= self@.remove(name@));
                None
            },
        }
    }

    /// The names that have a value, each once.
    pub fn names(&self) -> (r: Vec<String>)
        ensures
            forall|i: int, j: int|
                0 <= i < r@.len() && 0 <= j < r@.len() && (#[trigger] r@[i])@ == (#[trigger] r@[j])@
                    ==> i == j,
            forall|i: int| 0 <= i < r@.len() ==> self@.contains_key((#[trigger] r@[i])@),
            forall|name: Seq<char>| #[trigger]
                self@.contains_key(name) ==> exists|i: int|
                    0 <= i < r@.len() && (#[trigger] r@[i])@ == name,
    {
        proof {
            use_type_invariant(self);
        }
        let mut r: Vec<String> = Vec::new();
        let mut i: usize = 0;
        while i < self.entries.len()
            invariant
                i <= self.entries@.len(),
                r@.len() == i,
                forall|j: int| 0 <= j < i ==> #[trigger] r@[j] == self.entries@[j].0,
            decreases self.entries@.len() - i,
        {
            r.push(self.entries[i].0.clone());
            i = i + 1;
        }
        assert forall|i: int| 0 <= i < r@.len() implies self@.contains_key((#[trigger] r@[i])@) by {
            assert(self.entries@[i].0@ == r@[i]@);
        }
        assert forall|name: Seq<char>| #[trigger] self@.contains_key(name) implies exists|i: int|
            0 <= i < r@.len() && (#[trigger] r@[i])@ == name by {
            let i = place(self.entries@, name);
            assert(r@[i]@ == name);
        }
        r
    }
}

impl<V: Copy> Clone for NameMap<V> {
    fn clone(&self) -> (r: Self)
        ensures
            r@ == self@,
    {
        proof {
            use_type_invariant(self);
        }
        let mut entries: Vec<(String, V)> = Vec::new();
        let mut i: usize = 0;
        while i < self.entries.len()
            invariant
                i <= self.entries@.len(),
                entries@ == self.entries@.take(i as int),
            decreases self.entries@.len() - i,
        {
            entries.push((self.entries[i].0.clone(), self.entries[i].1));
            assert(entries@ =~= self.entries@.take(i + 1));
            i = i + 1;
        }
        assert(entries@ =~= self.entries@);
        NameMap { entries }
    }
}

proof fn lemma_replaced<V>(before: Seq<(String, V)>, i: int, name: String, value: V)
    requires
        distinct(before),
        0 <= i < before.len(),
        before[i].0@ == name@,
    ensures
        distinct(before.update(i, (name, value))),
        as_map(before.update(i, (name, value))) == as_map(before).insert(name@, value),
{
    let after = before.update(i, (name, value));
    assert forall|a: int, b: int|
        0 <= a < after.len() && 0 <= b < after.len() && (#[trigger] after[a]).0@ == (
        #[trigger] after[b]).0@ implies a == b by {
        assert(after[a].0@ == before[a].0@);
        assert(after[b].0@ == before[b].0@);
    }
    assert forall|k: Seq<char>| listed(after, k) <==> #[trigger] listed(before, k) by {
        if listed(after, k) {
            assert(before[place(after, k)].0@ == k);
        }
        if listed(before, k) {
            assert(after[place(before, k)].0@ == k);
        }
    }
    assert(after[i].0@ == name@);
    assert forall|k: Seq<char>| listed(before, k) implies #[trigger] as_map(after)[k] == as_map(
        before,
    ).insert(name@, value)[k] by {
        assert(listed(after, k));
        assert(after[place(before, k)].0@ == k);
        assert(place(after, k) == place(before, k));
    }
    assert(as_map(after) =~= as_map(before).insert(name@, value));
}

proof fn lemma_added<V>(before: Seq<(String, V)>, name: String, value: V)
    requires
        distinct(before),
        !listed(before, name@),
    ensures
        distinct(before.push((name, value))),
        as_map(before.push((name, value))) == as_map(before).insert(name@, value),
{
    let after = before.push((name, value));
    let n = before.len() as int;
    assert(after[n].0@ == name@);
    assert forall|k: Seq<char>| #[trigger] listed(before, k) implies listed(after, k) && place(
        after,
        k,
    ) == place(before, k) by {
        assert(after[place(before, k)].0@ == k);
        assert(place(after, k) != n);
        assert(before[place(after, k)].0@ == k);
    }
    assert forall|k: Seq<char>| #[trigger] listed(after, k) implies listed(before, k) || k
        == name@ by {
        if place(after, k) < n {
            assert(before[place(after, k)].0@ == k);
        }
    }
    assert(place(after, name@) == n) by {
        if place(after, name@) < n {
            assert(before[place(after, name@)].0@ == name@);
        }
    }
    assert(as_map(after) =~= as_map(before).insert(name@, value));
}

proof fn lemma_taken<V>(before: Seq<(String, V)>, i: int)
    requires
        distinct(before),
        0 <= i < before.len(),
    ensures
        distinct(before.remove(i)),
        as_map(before.remove(i)) == as_map(before).remove(before[i].0@),
        listed(before, before[i].0@),
        place(before, before[i].0@) == i,
{
    let after = before.remove(i);
    let name = before[i].0@;
    assert forall|k: Seq<char>| #[trigger] listed(after, k) implies listed(before, k) && k != name
        && before[place(before, k)] == after[place(after, k)] by {
        let j = place(after, k);
        let old_j = if j < i {
            j
        } else {
            j + 1
        };
        assert(before[old_j] == after[j]);
        assert(before[old_j].0@ == k);
    }
    assert forall|k: Seq<char>| #[trigger] listed(before, k) && k != name implies listed(
        after,
        k,
    ) by {
        let j = place(before, k);
        let new_j = if j < i {
            j
        } else {
            j - 1
        };
        assert(after[new_j] == before[j]);
    }
    assert(as_map(after) =~= as_map(before).remove(name));
}

} // verus!
