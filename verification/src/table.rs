//! A table of values under text keys, in the order in which the keys came.
use crate::text::{str_eq, views};
use vstd::prelude::*;

verus! {

/// Values under text keys. Each key occurs once; a key keeps the place at
/// which it first came.
#[derive(Debug)]
pub struct Table<V> {
    entries: Vec<(String, V)>,
}

spec fn keys_of<V>(entries: Seq<(String, V)>) -> Seq<Seq<char>> {
    entries.map_values(|entry: (String, V)| entry.0@)
}

spec fn map_of<V>(entries: Seq<(String, V)>) -> Map<Seq<char>, V>
    decreases entries.len(),
{
    if entries.len() == 0 {
        Map::empty()
    } else {
        map_of(entries.drop_last()).insert(entries.last().0@, entries.last().1)
    }
}

/// The keys without the first that is `key`.
pub open spec fn without_key(keys: Seq<Seq<char>>, key: Seq<char>) -> Seq<Seq<char>>
    decreases keys.len(),
{
    if keys.len() == 0 {
        keys
    } else if keys[0] == key {
        keys.skip(1)
    } else {
        seq![keys[0]] + without_key(keys.skip(1), key)
    }
}

spec fn distinct<V>(entries: Seq<(String, V)>) -> bool {
    forall|i: int, j: int|
        0 <= i < j < entries.len() ==> (#[trigger] entries[i]).0@ != (#[trigger] entries[j]).0@
}

proof fn lemma_map<V>(entries: Seq<(String, V)>)
    requires
        distinct(entries),
    ensures
        forall|i: int|
            0 <= i < entries.len() ==> map_of(entries).dom().contains((#[trigger] entries[i]).0@)
                && map_of(entries)[entries[i].0@] == entries[i].1,
        forall|key: Seq<char>| #[trigger]
            map_of(entries).dom().contains(key) ==> exists|i: int|
                0 <= i < entries.len() && (#[trigger] entries[i]).0@ == key,
    decreases entries.len(),
{
    if entries.len() > 0 {
        let before = entries.drop_last();
        lemma_map(before);
        assert forall|i: int| 0 <= i < entries.len() implies map_of(entries).dom().contains(
            (#[trigger] entries[i]).0@,
        ) && map_of(entries)[entries[i].0@] == entries[i].1 by {
            if i < before.len() {
                assert(before[i] == entries[i]);
            }
        }
        assert forall|key: Seq<char>| #[trigger]
            map_of(entries).dom().contains(key) implies exists|i: int|
            0 <= i < entries.len() && (#[trigger] entries[i]).0@ == key by {
            if key == entries.last().0@ {
                assert(entries[entries.len() - 1].0@ == key);
            } else {
                assert(map_of(before).dom().contains(key));
                let i = choose|i: int| 0 <= i < before.len() && (#[trigger] before[i]).0@ == key;
                assert(entries[i].0@ == key);
            }
        }
    }
}

proof fn lemma_map_finite<V>(entries: Seq<(String, V)>)
    ensures
        map_of(entries).dom().finite(),
    decreases entries.len(),
{
    if entries.len() > 0 {
        lemma_map_finite(entries.drop_last());
    }
}

/// A table has finitely many keys.
pub proof fn lemma_finite<V>(table: Table<V>)
    ensures
        table@.dom().finite(),
{
    lemma_map_finite(table.entries@);
}

proof fn lemma_same_map<V>(entries: Seq<(String, V)>, map: Map<Seq<char>, V>)
    requires
        distinct(entries),
        forall|i: int|
            0 <= i < entries.len() ==> map.dom().contains((#[trigger] entries[i]).0@)
                && map[entries[i].0@] == entries[i].1,
        forall|key: Seq<char>| #[trigger]
            map.dom().contains(key) ==> exists|i: int|
                0 <= i < entries.len() && (#[trigger] entries[i]).0@ == key,
    ensures
        map_of(entries) == map,
{
    lemma_map(entries);
    assert(map_of(entries) =~= map) by {
        assert forall|key: Seq<char>| map.dom().contains(key) implies map_of(
            entries,
        ).dom().contains(key) && map_of(entries)[key] == map[key] by {
            let i = choose|i: int| 0 <= i < entries.len() && (#[trigger] entries[i]).0@ == key;
            assert(entries[i].0@ == key);
        }
        assert forall|key: Seq<char>|
            map_of(entries).dom().contains(key) implies map.dom().contains(key) by {
            let i = choose|i: int| 0 <= i < entries.len() && (#[trigger] entries[i]).0@ == key;
            assert(entries[i].0@ == key);
        }
    }
}

impl<V> View for Table<V> {
    type V = Map<Seq<char>, V>;

    closed spec fn view(&self) -> Map<Seq<char>, V> {
        map_of(self.entries@)
    }
}

impl<V> Table<V> {
    #[verifier::type_invariant]
    spec fn keys_distinct(self) -> bool {
        distinct(self.entries@)
    }

    /// The keys, in the order in which they came.
    pub closed spec fn order(&self) -> Seq<Seq<char>> {
        keys_of(self.entries@)
    }

    /// A table without entries.
    pub fn new() -> (out: Table<V>)
        ensures
            out@ == Map::<Seq<char>, V>::empty(),
            out.order() == Seq::<Seq<char>>::empty(),
    {
        let out = Table { entries: Vec::new() };
        assert(out.order() =~= Seq::<Seq<char>>::empty());
        out
    }

    /// How many entries there are. The keys in order are those of the table,
    /// each once.
    pub fn len(&self) -> (n: usize)
        ensures
            n == self.order().len(),
            self.order().no_duplicates(),
            forall|key: Seq<char>| #[trigger]
                self.order().contains(key) <==> self@.dom().contains(key),
    {
        proof {
            use_type_invariant(self);
            let entries = self.entries@;
            lemma_map(entries);
            assert forall|i: int, j: int|
                0 <= i < self.order().len() && 0 <= j < self.order().len() && i
                    != j implies self.order()[i] != self.order()[j] by {
                assert(entries[i].0@ != entries[j].0@);
            }
            assert forall|key: Seq<char>| #[trigger] self.order().contains(key) implies self@.dom().contains(
                key,
            ) by {
                let i = choose|i: int| 0 <= i < self.order().len() && self.order()[i] == key;
                assert(entries[i].0@ == key);
            }
            assert forall|key: Seq<char>| self@.dom().contains(key) implies #[trigger] self.order().contains(
                key,
            ) by {
                let i = choose|i: int| 0 <= i < entries.len() && (#[trigger] entries[i]).0@ == key;
                assert(self.order()[i] == key);
            }
        }
        self.entries.len()
    }

    /// Whether there are no entries.
    pub fn is_empty(&self) -> (yes: bool)
        ensures
            yes == (self@ == Map::<Seq<char>, V>::empty()),
    {
        proof {
            use_type_invariant(self);
            lemma_map(self.entries@);
            if self.entries@.len() > 0 {
                assert(self@.dom().contains(self.entries@[0].0@));
            }
        }
        self.entries.len() == 0
    }

    /// The key at place `i`.
    pub fn key_at(&self, i: usize) -> (key: &String)
        requires
            i < self.order().len(),
        ensures
            key@ == self.order()[i as int],
    {
        &self.entries[i].0
    }

    /// The value at place `i`.
    pub fn value_at(&self, i: usize) -> (value: &V)
        requires
            i < self.order().len(),
        ensures
            self@.dom().contains(self.order()[i as int]),
            *value == self@[self.order()[i as int]],
    {
        proof {
            use_type_invariant(self);
            lemma_map(self.entries@);
            assert(self.entries@[i as int].0@ == self.order()[i as int]);
        }
        &self.entries[i].1
    }

    fn find(&self, key: &str) -> (out: Option<usize>)
        ensures
            out matches Some(i) ==> i < self.entries@.len() && self.entries@[i as int].0@ == key@,
            out is None ==> !self@.dom().contains(key@) && forall|i: int|
                0 <= i < self.entries@.len() ==> (#[trigger] self.entries@[i]).0@ != key@,
    {
        let mut i: usize = 0;
        while i < self.entries.len()
            invariant
                i <= self.entries@.len(),
                forall|k: int| 0 <= k < i ==> (#[trigger] self.entries@[k]).0@ != key@,
            decreases self.entries@.len() - i,
        {
            if str_eq(self.entries[i].0.as_str(), key) {
                return Some(i);
            }
            i += 1;
        }
        proof {
            use_type_invariant(self);
            lemma_map(self.entries@);
        }
        None
    }

    /// The value under `key`.
    pub fn get(&self, key: &str) -> (out: Option<&V>)
        ensures
            out matches Some(value) ==> self@.dom().contains(key@) && *value == self@[key@],
            out is None ==> !self@.dom().contains(key@),
    {
        match self.find(key) {
            Some(i) => {
                proof {
                    use_type_invariant(self);
                    lemma_map(self.entries@);
                }
                Some(&self.entries[i].1)
            },
            None => None,
        }
    }

    /// Whether there is an entry under `key`.
    pub fn contains_key(&self, key: &str) -> (yes: bool)
        ensures
            yes == self@.dom().contains(key@),
    {
        self.get(key).is_some()
    }

    /// Puts `value` under `key`, in place of what stood there.
    pub fn insert(&mut self, key: &str, value: V)
        ensures
            final(self)@ == old(self)@.insert(key@, value),
            final(self).order() == (if old(self)@.dom().contains(key@) {
                old(self).order()
            } else {
                old(self).order().push(key@)
            }),
    {
        let found = self.find(key);
        proof {
            use_type_invariant(&*self);
            lemma_map(self.entries@);
        }
        let ghost before = self.entries@;
        let mut entries: Vec<(String, V)> = Vec::new();
        std::mem::swap(&mut entries, &mut self.entries);
        match found {
            Some(i) => {
                entries.set(i, (key.to_owned(), value));
                proof {
                    assert(keys_of(entries@) =~= keys_of(before));
                    assert(keys_of(before)[i as int] == key@);
                    lemma_same_map_after(before, entries@, key@, value);
                }
            },
            None => {
                entries.push((key.to_owned(), value));
                proof {
                    assert(keys_of(entries@) =~= keys_of(before).push(key@));
                    assert(entries@.drop_last() =~= before);
                }
            },
        }
        self.entries = entries;
    }

    /// Takes the entry under `key` out and gives its value.
    pub fn remove(&mut self, key: &str) -> (out: Option<V>)
        ensures
            final(self)@ == old(self)@.remove(key@),
            out matches Some(value) ==> old(self)@.dom().contains(key@) && value
                == old(self)@[key@],
            out is None ==> !old(self)@.dom().contains(key@),
            final(self).order() == without_key(old(self).order(), key@),
    {
        let found = self.find(key);
        proof {
            use_type_invariant(&*self);
            lemma_map(self.entries@);
        }
        let ghost before = self.entries@;
        match found {
            Some(i) => {
                let mut entries: Vec<(String, V)> = Vec::new();
                std::mem::swap(&mut entries, &mut self.entries);
                let (_, value) = entries.remove(i);
                proof {
                    lemma_removed(before, i as int);
                    assert(entries@ == before.remove(i as int));
                }
                self.entries = entries;
                Some(value)
            },
            None => {
                proof {
                    assert(self@.remove(key@) =~= self@);
                    lemma_without_none(keys_of(before), key@);
                }
                None
            },
        }
    }

    /// The keys, in their order.
    pub fn keys(&self) -> (out: Vec<String>)
        ensures
            views(out@) == self.order(),
            self.order().no_duplicates(),
            forall|key: Seq<char>| #[trigger]
                self.order().contains(key) <==> self@.dom().contains(key),
    {
        let mut out: Vec<String> = Vec::new();
        let total: usize = self.len();
        let mut i: usize = 0;
        while i < total
            invariant
                i <= total,
                total == self.order().len(),
                views(out@) == self.order().take(i as int),
            decreases total - i,
        {
            let ghost before = views(out@);
            out.push(self.key_at(i).clone());
            assert(views(out@) =~= before.push(self.order()[i as int]));
            assert(self.order().take(i + 1) =~= before.push(self.order()[i as int]));
            i += 1;
        }
        assert(self.order().take(i as int) =~= self.order());
        out
    }

    /// Takes every entry out.
    pub fn clear(&mut self)
        ensures
            final(self)@ == Map::<Seq<char>, V>::empty(),
            final(self).order() == Seq::<Seq<char>>::empty(),
    {
        self.entries = Vec::new();
        assert(self.order() =~= Seq::<Seq<char>>::empty());
    }
}

impl Table<String> {
    /// The same texts under the same keys, in the same order.
    pub fn copy(&self) -> (out: Table<String>)
        ensures
            out@ == self@,
            out.order() == self.order(),
    {
        let mut entries: Vec<(String, String)> = Vec::new();
        proof {
            use_type_invariant(self);
        }
        let mut i: usize = 0;
        while i < self.entries.len()
            invariant
                i <= self.entries@.len(),
                entries@ =~= self.entries@.take(i as int),
            decreases self.entries@.len() - i,
        {
            entries.push((self.entries[i].0.clone(), self.entries[i].1.clone()));
            i += 1;
        }
        assert(entries@ =~= self.entries@);
        Table { entries }
    }
}

impl Clone for Table<String> {
    fn clone(&self) -> (out: Self)
        ensures
            out@ == self@,
            out.order() == self.order(),
    {
        self.copy()
    }
}

proof fn lemma_same_map_after<V>(
    before: Seq<(String, V)>,
    after: Seq<(String, V)>,
    key: Seq<char>,
    value: V,
)
    requires
        distinct(before),
        keys_of(after) == keys_of(before),
        keys_of(before).contains(key),
        forall|i: int|
            0 <= i < after.len() ==> (if before[i].0@ == key {
                (#[trigger] after[i]).1 == value
            } else {
                after[i].1 == before[i].1
            }),
    ensures
        distinct(after),
        map_of(after) == map_of(before).insert(key, value),
{
    lemma_map(before);
    assert forall|i: int| 0 <= i < after.len() implies (#[trigger] after[i]).0@ == before[i].0@ by {
        assert(keys_of(after)[i] == keys_of(before)[i]);
    }
    assert(after.len() == keys_of(after).len());
    let map = map_of(before).insert(key, value);
    assert forall|i: int| 0 <= i < after.len() implies map.dom().contains((#[trigger] after[i]).0@)
        && map[after[i].0@] == after[i].1 by {
        assert(before[i].0@ == after[i].0@);
    }
    assert forall|k: Seq<char>| #[trigger] map.dom().contains(k) implies exists|i: int|
        0 <= i < after.len() && (#[trigger] after[i]).0@ == k by {
        if k == key {
            let i = choose|i: int| 0 <= i < keys_of(before).len() && keys_of(before)[i] == key;
            assert(after[i].0@ == key);
        } else {
            let i = choose|i: int| 0 <= i < before.len() && (#[trigger] before[i]).0@ == k;
            assert(after[i].0@ == k);
        }
    }
    lemma_same_map(after, map);
}

proof fn lemma_removed<V>(before: Seq<(String, V)>, at: int)
    requires
        distinct(before),
        0 <= at < before.len(),
    ensures
        distinct(before.remove(at)),
        map_of(before.remove(at)) == map_of(before).remove(before[at].0@),
        keys_of(before.remove(at)) == without_key(keys_of(before), before[at].0@),
{
    lemma_map(before);
    let key = before[at].0@;
    let after = before.remove(at);
    let map = map_of(before).remove(key);
    assert forall|i: int, j: int| 0 <= i < j < after.len() implies (#[trigger] after[i]).0@ != (
    #[trigger] after[j]).0@ by {
        let a = if i < at {
            i
        } else {
            i + 1
        };
        let b = if j < at {
            j
        } else {
            j + 1
        };
        assert(after[i] == before[a] && after[j] == before[b]);
    }
    assert forall|i: int| 0 <= i < after.len() implies map.dom().contains((#[trigger] after[i]).0@)
        && map[after[i].0@] == after[i].1 by {
        let a = if i < at {
            i
        } else {
            i + 1
        };
        assert(after[i] == before[a]);
        assert(before[a].0@ != before[at].0@);
    }
    assert forall|k: Seq<char>| #[trigger] map.dom().contains(k) implies exists|i: int|
        0 <= i < after.len() && (#[trigger] after[i]).0@ == k by {
        let i = choose|i: int| 0 <= i < before.len() && (#[trigger] before[i]).0@ == k;
        if i < at {
            assert(after[i] == before[i]);
        } else {
            assert(after[i - 1] == before[i]);
        }
    }
    lemma_same_map(after, map);
    let keys = keys_of(before);
    assert forall|i: int| 0 <= i < at implies #[trigger] keys[i] != key by {
        assert(before[i].0@ != before[at].0@);
    }
    lemma_without_at(keys, key, at);
    assert(keys_of(after) =~= keys.remove(at));
}

proof fn lemma_without_at(keys: Seq<Seq<char>>, key: Seq<char>, at: int)
    requires
        0 <= at < keys.len(),
        keys[at] == key,
        forall|i: int| 0 <= i < at ==> #[trigger] keys[i] != key,
    ensures
        without_key(keys, key) == keys.remove(at),
    decreases keys.len(),
{
    if at == 0 {
        assert(keys.skip(1) =~= keys.remove(0));
    } else {
        lemma_without_at(keys.skip(1), key, at - 1);
        assert(seq![keys[0]] + keys.skip(1).remove(at - 1) =~= keys.remove(at));
    }
}

proof fn lemma_without_none(keys: Seq<Seq<char>>, key: Seq<char>)
    requires
        forall|i: int| 0 <= i < keys.len() ==> #[trigger] keys[i] != key,
    ensures
        without_key(keys, key) == keys,
    decreases keys.len(),
{
    if keys.len() > 0 {
        lemma_without_none(keys.skip(1), key);
        assert(seq![keys[0]] + keys.skip(1) =~= keys);
    }
}

} // verus!
