//! A map from text to values, kept as a list in which no key occurs twice.
use vstd::prelude::*;
use crate::text;

verus! {

/// The names of a list of rows.
pub open spec fn names_of<V>(rows: Seq<(Seq<char>, V)>) -> Seq<Seq<char>> {
    rows.map_values(|r: (Seq<char>, V)| r.0)
}

/// The map that a list of rows stands for. A later row takes the place of an
/// earlier one with the same name.
pub open spec fn map_of<V>(rows: Seq<(Seq<char>, V)>) -> Map<Seq<char>, V>
    decreases rows.len(),
{
    if rows.len() == 0 {
        Map::empty()
    } else {
        map_of(rows.drop_last()).insert(rows.last().0, rows.last().1)
    }
}

/// `rows` are the entries of `map`, in the order of their names. There is exactly
/// one such list.
pub open spec fn are_entries<V>(rows: Seq<(Seq<char>, V)>, map: Map<Seq<char>, V>) -> bool {
    &&& text::ascending(names_of(rows))
    &&& names_of(rows).to_set() == map.dom()
    &&& forall|i: int| 0 <= i < rows.len() ==> (#[trigger] rows[i]).1 == map[rows[i].0]
}

/// Where a name occurs more than once its last row decides, and every name of the rows
/// is in the map.
pub proof fn law_the_last_row_decides<V>(rows: Seq<(Seq<char>, V)>, i: int)
    requires
        0 <= i < rows.len(),
    ensures
        map_of(rows).dom().contains(rows[i].0),
        (forall|j: int| i < j < rows.len() ==> (#[trigger] rows[j]).0 != rows[i].0) ==> map_of(
            rows,
        )[rows[i].0] == rows[i].1,
    decreases rows.len(),
{
    let front = rows.drop_last();
    if i < front.len() {
        law_the_last_row_decides(front, i);
        if forall|j: int| i < j < rows.len() ==> (#[trigger] rows[j]).0 != rows[i].0 {
            assert(rows[rows.len() - 1].0 != rows[i].0);
            assert forall|j: int| i < j < front.len() implies (#[trigger] front[j]).0
                != front[i].0 by {
                assert(rows[j].0 != rows[i].0);
            }
        }
    }
}

/// The entries of a map stand for the map.
pub proof fn lemma_entries_stand_for<V>(rows: Seq<(Seq<char>, V)>, map: Map<Seq<char>, V>)
    requires
        are_entries(rows, map),
    ensures
        map_of(rows) == map,
{
    assert forall|name: Seq<char>| map.dom().contains(name) implies map_of(rows).dom().contains(
        name,
    ) && map_of(rows)[name] == map[name] by {
        assert(names_of(rows).to_set().contains(name));
        let i = names_of(rows).index_of(name);
        assert(names_of(rows)[i] == name);
        lemma_row_is_in_map(rows, map, i);
    }
    assert forall|name: Seq<char>| map_of(rows).dom().contains(name) implies map.dom().contains(
        name,
    ) by {
        lemma_map_has_rows(rows, name);
        let i = names_of(rows).index_of(name);
        assert(names_of(rows)[i] == name);
        assert(names_of(rows).to_set().contains(name));
    }
    assert(map_of(rows) =~= map);
}

proof fn lemma_map_has_rows<V>(rows: Seq<(Seq<char>, V)>, name: Seq<char>)
    requires
        map_of(rows).dom().contains(name),
    ensures
        names_of(rows).contains(name),
    decreases rows.len(),
{
    if rows.last().0 == name {
        assert(names_of(rows)[rows.len() - 1] == name);
    } else {
        lemma_map_has_rows(rows.drop_last(), name);
        let i = names_of(rows.drop_last()).index_of(name);
        assert(names_of(rows.drop_last())[i] == name);
        assert(names_of(rows)[i] == name);
    }
}

proof fn lemma_row_is_in_map<V>(rows: Seq<(Seq<char>, V)>, map: Map<Seq<char>, V>, i: int)
    requires
        0 <= i < rows.len(),
        forall|j: int| 0 <= j < rows.len() ==> (#[trigger] rows[j]).1 == map[rows[j].0],
    ensures
        map_of(rows).dom().contains(rows[i].0),
        map_of(rows)[rows[i].0] == map[rows[i].0],
    decreases rows.len(),
{
    let last = rows.len() - 1;
    assert(rows[last].1 == map[rows[last].0]);
    if rows[i].0 != rows.last().0 {
        assert forall|j: int| 0 <= j < last implies (#[trigger] rows.drop_last()[j]).1
            == map[rows.drop_last()[j].0] by {
            assert(rows[j].1 == map[rows[j].0]);
        }
        lemma_row_is_in_map(rows.drop_last(), map, i);
    }
}

/// A map keyed by text. Its view is a mathematical map from the characters of
/// a key to the value stored under it.
pub struct TextMap<V> {
    entries: Vec<(String, V)>,
}

impl<V> View for TextMap<V> {
    type V = Map<Seq<char>, V>;

    closed spec fn view(&self) -> Map<Seq<char>, V> {
        Map::new(
            |k: Seq<char>| self.keys().contains(k),
            |k: Seq<char>| self.values()[self.keys().index_of(k)],
        )
    }
}

impl<V> TextMap<V> {
    /// The keys in the order in which they were first inserted.
    pub closed spec fn keys(&self) -> Seq<Seq<char>> {
        Seq::new(self.entries@.len(), |i: int| self.entries@[i].0@)
    }

    /// The values, in the order of their keys.
    pub closed spec fn values(&self) -> Seq<V> {
        Seq::new(self.entries@.len(), |i: int| self.entries@[i].1)
    }

    /// No key occurs twice.
    pub open spec fn wf(&self) -> bool {
        self.keys().no_duplicates()
    }

    /// How the list of entries and the map view belong together.
    pub proof fn lemma_entries(&self)
        requires
            self.wf(),
        ensures
            self.keys().len() == self.values().len(),
            self@.dom() =~= self.keys().to_set(),
            self@.dom().finite(),
            self@.dom().len() == self.keys().len(),
            forall|i: int|
                0 <= i < self.keys().len() ==> self@.dom().contains(#[trigger] self.keys()[i])
                    && self@[self.keys()[i]] == self.values()[i],
    {
        self.keys().unique_seq_to_set();
        vstd::seq_lib::seq_to_set_is_finite(self.keys());
        assert(self@.dom() =~= self.keys().to_set());
        assert forall|i: int| 0 <= i < self.keys().len() implies self@.dom().contains(
            #[trigger] self.keys()[i],
        ) && self@[self.keys()[i]] == self.values()[i] by {
            let k = self.keys()[i];
            assert(self.keys().contains(k));
            let j = self.keys().index_of(k);
            assert(self.keys()[j] == k);
            assert(i == j);
        }
    }

    pub fn new() -> (m: Self)
        ensures
            m.wf(),
            m@ == Map::<Seq<char>, V>::empty(),
            m.keys() == Seq::<Seq<char>>::empty(),
            m.values() == Seq::<V>::empty(),
    {
        let m = TextMap { entries: Vec::new() };
        assert(m@ =~= Map::<Seq<char>, V>::empty());
        m
    }

    /// The number of keys.
    pub fn len(&self) -> (n: usize)
        requires
            self.wf(),
        ensures
            n == self@.len(),
            n == self.keys().len(),
            n == self.values().len(),
    {
        proof {
            self.lemma_entries();
        }
        self.entries.len()
    }

    fn position(&self, key: &String) -> (p: Option<usize>)
        requires
            self.wf(),
        ensures
            match p {
                Some(i) => i < self.entries@.len() && self.entries@[i as int].0@ == key@,
                None => !self@.dom().contains(key@),
            },
    {
        let mut i: usize = 0;
        while i < self.entries.len()
            invariant
                i <= self.entries@.len(),
                forall|j: int| 0 <= j < i ==> self.entries@[j].0@ != key@,
            decreases self.entries@.len() - i,
        {
            if self.entries[i].0 == *key {
                return Some(i);
            }
            i += 1;
        }
        assert(!self.keys().contains(key@));
        None
    }

    pub fn contains(&self, key: &String) -> (b: bool)
        requires
            self.wf(),
        ensures
            b == self@.dom().contains(key@),
    {
        match self.position(key) {
            Some(i) => {
                proof {
                    self.lemma_entries();
                    assert(self.keys()[i as int] == key@);
                }
                true
            },
            None => false,
        }
    }

    pub fn get(&self, key: &String) -> (v: Option<&V>)
        requires
            self.wf(),
        ensures
            match v {
                Some(x) => self@.dom().contains(key@) && *x == self@[key@],
                None => !self@.dom().contains(key@),
            },
    {
        match self.position(key) {
            Some(i) => {
                proof {
                    self.lemma_entries();
                    assert(self.keys()[i as int] == key@);
                }
                Some(&self.entries[i].1)
            },
            None => None,
        }
    }

    /// Stores `value` under `key` and gives back what was there before.
    pub fn insert(&mut self, key: String, value: V) -> (prev: Option<V>)
        requires
            old(self).wf(),
        ensures
            final(self).wf(),
            final(self)@ == old(self)@.insert(key@, value),
            match prev {
                Some(x) => old(self)@.dom().contains(key@) && x == old(self)@[key@],
                None => !old(self)@.dom().contains(key@),
            },
            prev is Some ==> final(self).keys() == old(self).keys() && final(self).values()
                == old(self).values().update(old(self).keys().index_of(key@), value),
            prev is None ==> final(self).keys() == old(self).keys().push(key@)
                && final(self).values() == old(self).values().push(value),
    {
        let ghost before = *self;
        proof {
            before.lemma_entries();
        }
        match self.position(&key) {
            Some(i) => {
                assert(before.keys()[i as int] == key@);
                let ghost moved = key;
                let old_entry = self.entries.remove(i);
                self.entries.insert(i, (key, value));
                proof {
                    assert(self.keys() =~= before.keys());
                    assert(before.keys().contains(moved@));
                    let p = before.keys().index_of(moved@);
                    assert(before.keys()[p] == moved@ && p == i);
                    assert(self.values() =~= before.values().update(p, value));
                    self.lemma_entries();
                    assert forall|k: Seq<char>| self@.dom().contains(k) implies self@[k]
                        == before@.insert(moved@, value)[k] by {
                        let j = self.keys().index_of(k);
                        assert(self.keys()[j] == k);
                    }
                    assert(self@ =~= before@.insert(moved@, value));
                }
                Some(old_entry.1)
            },
            None => {
                let ghost moved = key;
                self.entries.push((key, value));
                proof {
                    assert(self.keys() =~= before.keys().push(moved@));
                    assert(self.values() =~= before.values().push(value));
                    assert(!before.keys().contains(moved@));
                    self.lemma_entries();
                    assert forall|k: Seq<char>| self@.dom().contains(k) implies self@[k]
                        == before@.insert(moved@, value)[k] by {
                        let j = self.keys().index_of(k);
                        assert(self.keys()[j] == k);
                        if j < before.keys().len() {
                            assert(before.keys()[j] == k);
                        }
                    }
                    assert forall|k: Seq<char>| before@.insert(moved@, value).dom().contains(
                        k,
                    ) implies self@.dom().contains(k) by {
                        if k == moved@ {
                            assert(self.keys()[before.keys().len() as int] == k);
                        } else {
                            let j = before.keys().index_of(k);
                            assert(self.keys()[j] == k);
                        }
                    }
                    assert(self@ =~= before@.insert(moved@, value));
                }
                None
            },
        }
    }

    /// Removes `key` and gives back its value.
    pub fn remove(&mut self, key: &String) -> (v: Option<V>)
        requires
            old(self).wf(),
        ensures
            final(self).wf(),
            final(self)@ == old(self)@.remove(key@),
            match v {
                Some(x) => old(self)@.dom().contains(key@) && x == old(self)@[key@],
                None => !old(self)@.dom().contains(key@),
            },
    {
        let ghost before = *self;
        proof {
            before.lemma_entries();
        }
        match self.position(key) {
            Some(i) => {
                assert(before.keys()[i as int] == key@);
                let entry = self.entries.remove(i);
                proof {
                    assert(self.keys() =~= before.keys().remove(i as int));
                    assert(self.wf());
                    self.lemma_entries();
                    assert forall|k: Seq<char>| self@.dom().contains(k) implies before@.remove(
                        key@,
                    ).dom().contains(k) && self@[k] == before@[k] by {
                        let j = self.keys().index_of(k);
                        assert(self.keys()[j] == k);
                        let jj = if j < i { j } else { j + 1 };
                        assert(before.keys()[jj] == k);
                    }
                    assert forall|k: Seq<char>| before@.remove(key@).dom().contains(
                        k,
                    ) implies self@.dom().contains(k) by {
                        let j = before.keys().index_of(k);
                        assert(before.keys()[j] == k);
                        let jj = if j < i { j } else { j - 1 };
                        assert(self.keys()[jj] == k);
                    }
                    assert(self@ =~= before@.remove(key@));
                }
                Some(entry.1)
            },
            None => {
                assert(self@ =~= before@.remove(key@));
                None
            },
        }
    }

    /// The keys, in the order of names.
    pub fn sorted_keys(&self) -> (names: Vec<String>)
        requires
            self.wf(),
        ensures
            text::ascending(text::views(names@)),
            text::views(names@).to_set() == self@.dom(),
    {
        let mut names: Vec<String> = Vec::new();
        let mut i: usize = 0;
        let n: usize = self.len();
        let ghost keys = self.keys();
        proof {
            self.lemma_entries();
            assert(text::views(names@).to_set() =~= keys.subrange(0, 0).to_set());
        }
        while i < n
            invariant
                self.wf(),
                keys == self.keys(),
                n == keys.len(),
                i <= n,
                text::ascending(text::views(names@)),
                text::views(names@).to_set() == keys.subrange(0, i as int).to_set(),
            decreases n - i,
        {
            let name = self.key_at(i);
            text::insert_name(&mut names, name);
            proof {
                let seen = keys.subrange(0, i as int);
                seen.lemma_push_to_set_commute(name@);
                assert(keys.subrange(0, i + 1) =~= seen.push(name@));
            }
            i += 1;
        }
        assert(keys.subrange(0, n as int) =~= keys);
        names
    }

    /// The key at position `i` of the list.
    pub fn key_at(&self, i: usize) -> (k: &String)
        requires
            i < self.keys().len(),
        ensures
            k@ == self.keys()[i as int],
    {
        &self.entries[i].0
    }

    /// The value at position `i` of the list.
    pub fn value_at(&self, i: usize) -> (v: &V)
        requires
            i < self.values().len(),
        ensures
            *v == self.values()[i as int],
    {
        &self.entries[i].1
    }

    /// Stores another value at position `i` of the list.
    pub fn set_value_at(&mut self, i: usize, value: V)
        requires
            old(self).wf(),
            i < old(self).keys().len(),
        ensures
            final(self).wf(),
            final(self).keys() == old(self).keys(),
            final(self).values() == old(self).values().update(i as int, value),
            final(self)@ == old(self)@.insert(old(self).keys()[i as int], value),
    {
        let ghost before = *self;
        let (key, _) = self.entries.remove(i);
        self.entries.insert(i, (key, value));
        proof {
            before.lemma_entries();
            assert(self.keys() =~= before.keys());
            assert(self.values() =~= before.values().update(i as int, value));
            self.lemma_entries();
            let after = before@.insert(before.keys()[i as int], value);
            assert forall|k: Seq<char>| self@.dom().contains(k) implies self@[k] == after[k] by {
                let j = self.keys().index_of(k);
                assert(self.keys()[j] == k);
            }
            assert(self@ =~= after);
        }
    }
}

} // verus!
