//! Values kept by unique name, such as the agents and tools that are
//! available to workflows.

use vstd::prelude::*;
use crate::text::{owned, str_eq};

verus! {

/// The map that a list of `(name, value)` entries stands for; a later entry
/// for a name wins over an earlier one.
pub open spec fn keyed_map<T>(entries: Seq<(String, T)>) -> Map<Seq<char>, T>
    decreases entries.len(),
{
    if entries.len() == 0 {
        Map::empty()
    } else {
        keyed_map(entries.drop_last()).insert(entries.last().0@, entries.last().1)
    }
}

/// No tool name occurs twice among the entries.
pub open spec fn names_distinct<T>(entries: Seq<(String, T)>) -> bool {
    forall|i: int, j: int|
        0 <= i < entries.len() && 0 <= j < entries.len() && i != j ==> entries[i].0@ != entries[j].0@
}

/// With distinct names, the map holds each entry, holds nothing else, and
/// has one key per entry.
pub proof fn lemma_keyed_map<T>(entries: Seq<(String, T)>)
    requires
        names_distinct(entries),
    ensures
        forall|i: int| 0 <= i < entries.len() ==> {
            &&& keyed_map(entries).contains_key(#[trigger] entries[i].0@)
            &&& keyed_map(entries)[entries[i].0@] == entries[i].1
        },
        forall|k: Seq<char>| keyed_map(entries).contains_key(k) ==>
            exists|i: int| 0 <= i < entries.len() && #[trigger] entries[i].0@ == k,
        keyed_map(entries).dom().finite(),
        keyed_map(entries).len() == entries.len(),
    decreases entries.len(),
{
    broadcast use vstd::map::group_map_axioms, vstd::set::group_set_axioms;

    if entries.len() > 0 {
        let init = entries.drop_last();
        let last = entries.last();
        assert(names_distinct(init)) by {
            assert forall|i: int, j: int|
                0 <= i < init.len() && 0 <= j < init.len() && i != j implies init[i].0@ != init[j].0@ by {
                assert(init[i] == entries[i] && init[j] == entries[j]);
            }
        }
        lemma_keyed_map(init);
        let m = keyed_map(init);
        assert(!m.contains_key(last.0@)) by {
            if m.contains_key(last.0@) {
                let i = choose|i: int| 0 <= i < init.len() && #[trigger] init[i].0@ == last.0@;
                assert(entries[i].0@ == entries[entries.len() - 1].0@);
            }
        }
        assert forall|i: int| 0 <= i < entries.len() implies {
            &&& keyed_map(entries).contains_key(#[trigger] entries[i].0@)
            &&& keyed_map(entries)[entries[i].0@] == entries[i].1
        } by {
            if i < entries.len() - 1 {
                assert(init[i] == entries[i]);
                assert(entries[i].0@ != last.0@);
            }
        }
        assert forall|k: Seq<char>| keyed_map(entries).contains_key(k) implies
            exists|i: int| 0 <= i < entries.len() && #[trigger] entries[i].0@ == k by {
            if k != last.0@ {
                let i = choose|i: int| 0 <= i < init.len() && #[trigger] init[i].0@ == k;
                assert(entries[i] == init[i]);
            } else {
                assert(entries[entries.len() - 1].0@ == k);
            }
        }
        assert(keyed_map(entries).dom() =~= m.dom().insert(last.0@));
    } else {
        assert(keyed_map(entries).dom() =~= Set::<Seq<char>>::empty());
    }
}

/// The map of entries that differ from `entries` only at `i`, where the
/// new entry keeps the name.
pub proof fn lemma_keyed_map_update<T>(entries: Seq<(String, T)>, i: int, e: (String, T))
    requires
        names_distinct(entries),
        0 <= i < entries.len(),
        entries[i].0@ == e.0@,
    ensures
        names_distinct(entries.update(i, e)),
        keyed_map(entries.update(i, e)) == keyed_map(entries).insert(e.0@, e.1),
{
    broadcast use vstd::map::group_map_axioms;

    let u = entries.update(i, e);
    assert forall|a: int, b: int| 0 <= a < u.len() && 0 <= b < u.len() && a != b implies u[a].0@ != u[b].0@ by {
        assert(u[a].0@ == entries[a].0@ && u[b].0@ == entries[b].0@);
    }
    lemma_keyed_map(entries);
    lemma_keyed_map(u);
    let m = keyed_map(entries).insert(e.0@, e.1);
    assert forall|k: Seq<char>| #[trigger] keyed_map(u).contains_key(k) == m.contains_key(k) by {
        if keyed_map(u).contains_key(k) {
            let j = choose|j: int| 0 <= j < u.len() && #[trigger] u[j].0@ == k;
            assert(entries[j].0@ == k);
        }
        if keyed_map(entries).contains_key(k) {
            let j = choose|j: int| 0 <= j < entries.len() && #[trigger] entries[j].0@ == k;
            assert(u[j].0@ == k);
        }
    }
    assert forall|k: Seq<char>| #[trigger] keyed_map(u).contains_key(k) implies keyed_map(u)[k] == m[k] by {
        let j = choose|j: int| 0 <= j < u.len() && #[trigger] u[j].0@ == k;
        if j != i {
            assert(entries[j] == u[j]);
        }
    }
    assert(keyed_map(u) =~= m);
}

/// Removing the entry at `i` removes its name from the map.
pub proof fn lemma_keyed_map_remove<T>(entries: Seq<(String, T)>, i: int)
    requires
        names_distinct(entries),
        0 <= i < entries.len(),
    ensures
        names_distinct(entries.remove(i)),
        keyed_map(entries.remove(i)) == keyed_map(entries).remove(entries[i].0@),
{
    broadcast use vstd::map::group_map_axioms;

    let u = entries.remove(i);
    entries.remove_ensures(i);
    let back = |a: int| if a < i { a } else { a + 1 };
    assert forall|a: int| 0 <= a < u.len() implies #[trigger] u[a] == entries[back(a)] by {}
    assert forall|a: int, b: int| 0 <= a < u.len() && 0 <= b < u.len() && a != b implies u[a].0@ != u[b].0@ by {
        assert(u[a] == entries[back(a)] && u[b] == entries[back(b)]);
    }
    lemma_keyed_map(entries);
    lemma_keyed_map(u);
    let k0 = entries[i].0@;
    let m = keyed_map(entries).remove(k0);
    assert forall|k: Seq<char>| #[trigger] keyed_map(u).contains_key(k) == m.contains_key(k) by {
        if keyed_map(u).contains_key(k) {
            let j = choose|j: int| 0 <= j < u.len() && #[trigger] u[j].0@ == k;
            assert(u[j] == entries[back(j)]);
            assert(back(j) != i);
        }
        if m.contains_key(k) {
            let j = choose|j: int| 0 <= j < entries.len() && #[trigger] entries[j].0@ == k;
            assert(j != i);
            if j < i {
                assert(u[j] == entries[j]);
            } else {
                assert(u[j - 1] == entries[j]);
            }
        }
    }
    assert forall|k: Seq<char>| #[trigger] keyed_map(u).contains_key(k) implies keyed_map(u)[k] == m[k] by {
        let j = choose|j: int| 0 <= j < u.len() && #[trigger] u[j].0@ == k;
        assert(u[j] == entries[back(j)]);
    }
    assert(keyed_map(u) =~= m);
}

/// Index of the entry named `name`, if there is one.
fn find_name<T>(entries: &Vec<(String, T)>, name: &str) -> (r: Option<usize>)
    ensures
        match r {
            Some(i) => i < entries@.len() && entries@[i as int].0@ == name@,
            None => forall|j: int| 0 <= j < entries@.len() ==> entries@[j].0@ != name@,
        },
{
    let mut i: usize = 0;
    while i < entries.len()
        invariant
            i <= entries@.len(),
            forall|j: int| 0 <= j < i ==> entries@[j].0@ != name@,
        decreases entries@.len() - i,
    {
        if str_eq(entries[i].0.as_str(), name) {
            return Some(i);
        }
        i = i + 1;
    }
    None
}

/// Adding a value under a new name: the name then finds that value, and every
/// other name finds what it found before.
pub proof fn law_insert_then_get<T>(before: Map<Seq<char>, T>, name: Seq<char>, value: T)
    requires
        !before.contains_key(name),
    ensures
        before.insert(name, value).contains_key(name),
        before.insert(name, value)[name] == value,
        forall|k: Seq<char>| k != name ==> (#[trigger] before.insert(name, value).contains_key(k)
            == before.contains_key(k)),
        forall|k: Seq<char>| k != name && before.contains_key(k) ==> #[trigger] before.insert(name, value)[k]
            == before[k],
{
}

/// Removing a name undoes adding it: a registry that did not hold the name is
/// back where it was.
pub proof fn law_remove_undoes_insert<T>(before: Map<Seq<char>, T>, name: Seq<char>, value: T)
    requires
        !before.contains_key(name),
    ensures
        before.insert(name, value).remove(name) == before,
{
    assert(before.insert(name, value).remove(name) =~= before);
}

/// Values kept by name; no name is kept twice.
#[derive(Debug)]
pub struct Registry<T> {
    entries: Vec<(String, T)>,
}

impl<T> Registry<T> {
    #[verifier::type_invariant]
    spec fn distinct(self) -> bool {
        names_distinct(self.entries@)
    }

    /// The value kept under each name.
    pub closed spec fn view(&self) -> Map<Seq<char>, T> {
        keyed_map(self.entries@)
    }

    /// The names, in the order they were added.
    pub closed spec fn order(&self) -> Seq<Seq<char>> {
        self.entries@.map_values(|e: (String, T)| e.0@)
    }

    /// An empty registry.
    pub fn new() -> (r: Self)
        ensures
            r.view() == Map::<Seq<char>, T>::empty(),
    {
        Registry { entries: Vec::new() }
    }

    /// Adds `value` under `name` unless the name is taken; then the value
    /// is handed back and nothing changes.
    pub fn insert_new(&mut self, name: &str, value: T) -> (r: Result<(), T>)
        ensures
            old(self).view().contains_key(name@) ==> r == Err::<(), T>(value) && final(self).view() == old(self).view(),
            !old(self).view().contains_key(name@) ==> r is Ok && final(self).view() == old(self).view().insert(name@, value),
    {
        proof {
            use_type_invariant(&*self);
            lemma_keyed_map(self.entries@);
        }
        match find_name(&self.entries, name) {
            Some(i) => {
                assert(self.entries@[i as int].0@ == name@);
                Err(value)
            },
            None => {
                proof {
                    if keyed_map(self.entries@).contains_key(name@) {
                        let j = choose|j: int| 0 <= j < self.entries@.len() && #[trigger] self.entries@[j].0@ == name@;
                        assert(false);
                    }
                }
                let mut entries: Vec<(String, T)> = Vec::new();
                std::mem::swap(&mut entries, &mut self.entries);
                let ghost before = entries@;
                entries.push((owned(name), value));
                proof {
                    assert(entries@.drop_last() =~= before);
                    assert forall|a: int, b: int|
                        0 <= a < entries@.len() && 0 <= b < entries@.len() && a != b
                        implies entries@[a].0@ != entries@[b].0@ by {
                        if a < before.len() && b < before.len() {
                            assert(entries@[a] == before[a] && entries@[b] == before[b]);
                        } else if a < before.len() {
                            assert(entries@[a] == before[a]);
                        } else {
                            assert(entries@[b] == before[b]);
                        }
                    }
                }
                self.entries = entries;
                Ok(())
            },
        }
    }

    /// Keeps `value` under `name`, replacing what was kept there.
    pub fn set(&mut self, name: &str, value: T)
        ensures
            final(self).view() == old(self).view().insert(name@, value),
    {
        proof {
            use_type_invariant(&*self);
            lemma_keyed_map(self.entries@);
        }
        let mut entries: Vec<(String, T)> = Vec::new();
        std::mem::swap(&mut entries, &mut self.entries);
        let ghost before = entries@;
        let entry = (owned(name), value);
        match find_name(&entries, name) {
            Some(i) => {
                proof {
                    lemma_keyed_map_update(before, i as int, entry);
                }
                entries.set(i, entry);
            },
            None => {
                entries.push(entry);
                proof {
                    assert(entries@.drop_last() =~= before);
                    assert forall|a: int, b: int|
                        0 <= a < entries@.len() && 0 <= b < entries@.len() && a != b
                        implies entries@[a].0@ != entries@[b].0@ by {
                        if a < before.len() && b < before.len() {
                            assert(entries@[a] == before[a] && entries@[b] == before[b]);
                        } else if a < before.len() {
                            assert(entries@[a] == before[a]);
                        } else {
                            assert(entries@[b] == before[b]);
                        }
                    }
                }
            },
        }
        self.entries = entries;
    }

    /// The value kept under `name`, if any.
    pub fn get(&self, name: &str) -> (r: Option<&T>)
        ensures
            match r {
                Some(v) => self.view().contains_key(name@) && self.view()[name@] == *v,
                None => !self.view().contains_key(name@),
            },
    {
        proof {
            use_type_invariant(self);
            lemma_keyed_map(self.entries@);
        }
        match find_name(&self.entries, name) {
            Some(i) => Some(&self.entries[i].1),
            None => {
                proof {
                    if self.view().contains_key(name@) {
                        let j = choose|j: int| 0 <= j < self.entries@.len() && #[trigger] self.entries@[j].0@ == name@;
                        assert(false);
                    }
                }
                None
            },
        }
    }

    /// Whether a value is kept under `name`.
    pub fn contains(&self, name: &str) -> (r: bool)
        ensures
            r == self.view().contains_key(name@),
    {
        self.get(name).is_some()
    }

    /// The names, in the order they were added.
    pub fn names(&self) -> (r: Vec<String>)
        ensures
            r@.map_values(|s: String| s@) == self.order(),
            r@.map_values(|s: String| s@).to_set() == self.view().dom(),
    {
        proof {
            use_type_invariant(self);
            lemma_keyed_map(self.entries@);
        }
        let mut out: Vec<String> = Vec::new();
        let mut i: usize = 0;
        while i < self.entries.len()
            invariant
                i <= self.entries@.len(),
                out@.map_values(|s: String| s@) == self.order().take(i as int),
            decreases self.entries@.len() - i,
        {
            let ghost before = out@;
            out.push(self.entries[i].0.clone());
            assert(out@.map_values(|s: String| s@) =~= before.map_values(|s: String| s@).push(self.entries@[i as int].0@));
            i = i + 1;
            assert(self.order().take(i as int) =~= self.order().take(i - 1).push(self.entries@[i - 1].0@));
        }
        assert(self.order().take(i as int) =~= self.order());
        proof {
            let names = out@.map_values(|s: String| s@);
            assert forall|k: Seq<char>| names.to_set().contains(k) == self.view().dom().contains(k) by {
                if names.to_set().contains(k) {
                    let j = choose|j: int| 0 <= j < names.len() && names[j] == k;
                    assert(self.entries@[j].0@ == k);
                }
                if self.view().dom().contains(k) {
                    let j = choose|j: int| 0 <= j < self.entries@.len() && #[trigger] self.entries@[j].0@ == k;
                    assert(names[j] == k);
                }
            }
            assert(names.to_set() =~= self.view().dom());
        }
        out
    }

    /// Number of names kept.
    pub fn len(&self) -> (n: usize)
        ensures
            n == self.view().len(),
    {
        proof {
            use_type_invariant(self);
            lemma_keyed_map(self.entries@);
        }
        self.entries.len()
    }

    /// Whether nothing is kept.
    pub fn is_empty(&self) -> (b: bool)
        ensures
            b == (self.view().len() == 0),
    {
        self.len() == 0
    }

    /// Removes and hands back the value kept under `name`, if any.
    pub fn remove(&mut self, name: &str) -> (r: Option<T>)
        ensures
            match r {
                Some(v) => old(self).view().contains_key(name@) && old(self).view()[name@] == v,
                None => !old(self).view().contains_key(name@),
            },
            final(self).view() == old(self).view().remove(name@),
    {
        proof {
            use_type_invariant(&*self);
            lemma_keyed_map(self.entries@);
        }
        let mut entries: Vec<(String, T)> = Vec::new();
        std::mem::swap(&mut entries, &mut self.entries);
        let ghost before = entries@;
        let r = match find_name(&entries, name) {
            Some(i) => {
                proof {
                    lemma_keyed_map_remove(before, i as int);
                }
                let (_, v) = entries.remove(i);
                Some(v)
            },
            None => {
                proof {
                    if keyed_map(before).contains_key(name@) {
                        let j = choose|j: int| 0 <= j < before.len() && #[trigger] before[j].0@ == name@;
                        assert(false);
                    }
                    assert(keyed_map(before).remove(name@) =~= keyed_map(before));
                }
                None
            },
        };
        self.entries = entries;
        r
    }

    /// Removes everything.
    pub fn clear(&mut self)
        ensures
            final(self).view() == Map::<Seq<char>, T>::empty(),
    {
        self.entries = Vec::new();
    }

    /// The kept values, in the order they were added.
    pub fn values(&self) -> (r: Vec<&T>)
        ensures
            r@.len() == self.order().len(),
            forall|k: int| 0 <= k < r@.len() ==> self.view().contains_key(self.order()[k])
                && *(#[trigger] r@[k]) == self.view()[self.order()[k]],
    {
        proof {
            use_type_invariant(self);
            lemma_keyed_map(self.entries@);
        }
        let mut out: Vec<&T> = Vec::new();
        let mut i: usize = 0;
        while i < self.entries.len()
            invariant
                i <= self.entries@.len(),
                out@.len() == i,
                forall|k: int| 0 <= k < i ==> *(#[trigger] out@[k]) == self.entries@[k].1,
            decreases self.entries@.len() - i,
        {
            out.push(&self.entries[i].1);
            i = i + 1;
        }
        out
    }
}

impl<T: Copy> Registry<T> {
    /// A registry that keeps copies of the same values under the same names.
    pub fn copied(&self) -> (r: Registry<T>)
        ensures
            r.view() == self.view(),
    {
        proof {
            use_type_invariant(self);
        }
        let src = &self.entries;
        let mut entries: Vec<(String, T)> = Vec::new();
        let mut i: usize = 0;
        while i < src.len()
            invariant
                names_distinct(src@),
                i <= src@.len(),
                entries@.len() == i,
                forall|j: int| 0 <= j < i ==> (#[trigger] entries@[j]).0@ == src@[j].0@ && entries@[j].1 == src@[j].1,
            decreases src@.len() - i,
        {
            let name = src[i].0.clone();
            let v: T = src[i].1;
            entries.push((name, v));
            i = i + 1;
        }
        proof {
            assert forall|a: int, b: int|
                0 <= a < entries@.len() && 0 <= b < entries@.len() && a != b implies entries@[a].0@ != entries@[b].0@ by {
                assert(entries@[a].0@ == src@[a].0@ && entries@[b].0@ == src@[b].0@);
            }
            lemma_keyed_map(entries@);
            lemma_keyed_map(src@);
            assert forall|k: Seq<char>| #[trigger] keyed_map(entries@).contains_key(k) == keyed_map(src@).contains_key(k) by {
                if keyed_map(entries@).contains_key(k) {
                    let j = choose|j: int| 0 <= j < entries@.len() && #[trigger] entries@[j].0@ == k;
                    assert(src@[j].0@ == k);
                }
                if keyed_map(src@).contains_key(k) {
                    let j = choose|j: int| 0 <= j < src@.len() && #[trigger] src@[j].0@ == k;
                    assert(entries@[j].0@ == k);
                }
            }
            assert forall|k: Seq<char>| #[trigger] keyed_map(entries@).contains_key(k) implies
                keyed_map(entries@)[k] == keyed_map(src@)[k] by {
                let j = choose|j: int| 0 <= j < entries@.len() && #[trigger] entries@[j].0@ == k;
                assert(src@[j].0@ == k);
            }
            assert(keyed_map(entries@) =~= keyed_map(src@));
        }
        Registry { entries }
    }
}

} // verus!
