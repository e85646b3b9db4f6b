//! Small tables from texts to values, in the order of their first entry. A table
//! has at most one value for each key.

use vstd::prelude::*;

use crate::text;

verus! {

/// The place of the first entry for `key`, or the number of entries.
pub open spec fn place_of<W>(table: Seq<(Seq<char>, W)>, key: Seq<char>) -> int
    decreases table.len(),
{
    if table.len() == 0 {
        0
    } else if table[0].0 == key {
        0
    } else {
        1 + place_of(table.subrange(1, table.len() as int), key)
    }
}

/// Whether there is an entry for `key`.
pub open spec fn has<W>(table: Seq<(Seq<char>, W)>, key: Seq<char>) -> bool {
    place_of(table, key) < table.len()
}

/// The value for `key`.
pub open spec fn value_at<W>(table: Seq<(Seq<char>, W)>, key: Seq<char>) -> Option<W> {
    if has(table, key) {
        Some(table[place_of(table, key)].1)
    } else {
        None
    }
}

/// The table with `value` for `key`: in place of the entry that is there, or
/// else behind the others.
pub open spec fn with<W>(
    table: Seq<(Seq<char>, W)>,
    key: Seq<char>,
    value: W,
) -> Seq<(Seq<char>, W)> {
    if has(table, key) {
        table.update(place_of(table, key), (key, value))
    } else {
        table.push((key, value))
    }
}

/// The table without the entry for `key`.
pub open spec fn without<W>(table: Seq<(Seq<char>, W)>, key: Seq<char>) -> Seq<(Seq<char>, W)> {
    if has(table, key) {
        table.remove(place_of(table, key))
    } else {
        table
    }
}

proof fn lemma_place_at<W>(table: Seq<(Seq<char>, W)>, key: Seq<char>, n: int)
    requires
        0 <= n <= table.len(),
        forall|i: int| 0 <= i < n ==> (#[trigger] table[i]).0 != key,
        n < table.len() ==> table[n].0 == key,
    ensures
        place_of(table, key) == n,
    decreases table.len(),
{
    if n > 0 {
        let rest = table.subrange(1, table.len() as int);
        assert forall|i: int| 0 <= i < n - 1 implies (#[trigger] rest[i]).0 != key by {
            assert(rest[i] == table[i + 1]);
        }
        lemma_place_at(rest, key, n - 1);
        assert(table[0].0 != key);
    }
}

/// The place of a key is that of an entry with this key, and no entry before it
/// has the key.
pub proof fn lemma_place<W>(table: Seq<(Seq<char>, W)>, key: Seq<char>)
    ensures
        0 <= place_of(table, key) <= table.len(),
        has(table, key) ==> table[place_of(table, key)].0 == key,
        forall|i: int| 0 <= i < place_of(table, key) ==> (#[trigger] table[i]).0 != key,
    decreases table.len(),
{
    if table.len() > 0 && table[0].0 != key {
        let rest = table.subrange(1, table.len() as int);
        lemma_place(rest, key);
        assert forall|i: int| 0 <= i < place_of(table, key) implies (#[trigger] table[i]).0
            != key by {
            if i > 0 {
                assert(rest[i - 1] == table[i]);
            }
        }
    }
}

/// What was put in is there, and everything else is as it was.
pub proof fn law_with<W>(table: Seq<(Seq<char>, W)>, key: Seq<char>, value: W, other: Seq<char>)
    ensures
        value_at(with(table, key, value), key) == Some(value),
        other != key ==> value_at(with(table, key, value), other) == value_at(table, other),
{
    let new = with(table, key, value);
    lemma_place(table, key);
    lemma_place(table, other);
    lemma_place_at(new, key, place_of(table, key));
    if other != key {
        if has(table, other) {
            lemma_place_at(new, other, place_of(table, other));
        } else {
            lemma_place_at(new, other, new.len() as int);
        }
    }
}

/// Whether no key occurs twice.
pub open spec fn keys_differ<W>(table: Seq<(Seq<char>, W)>) -> bool {
    forall|i: int, j: int|
        0 <= i < j < table.len() ==> (#[trigger] table[i]).0 != (#[trigger] table[j]).0
}

/// No key occurs twice, whatever is put in.
pub proof fn law_with_keeps_keys_different<W>(
    table: Seq<(Seq<char>, W)>,
    key: Seq<char>,
    value: W,
)
    requires
        keys_differ(table),
    ensures
        keys_differ(with(table, key, value)),
{
    lemma_place(table, key);
}

/// No key occurs twice, whatever is taken out.
pub proof fn law_without_keeps_keys_different<W>(table: Seq<(Seq<char>, W)>, key: Seq<char>)
    requires
        keys_differ(table),
    ensures
        keys_differ(without(table, key)),
{
    lemma_place(table, key);
}

/// What was taken out is gone, and everything else is as it was.
pub proof fn law_without<W>(table: Seq<(Seq<char>, W)>, key: Seq<char>, other: Seq<char>)
    requires
        keys_differ(table),
    ensures
        value_at(without(table, key), key) is None,
        other != key ==> value_at(without(table, key), other) == value_at(table, other),
{
    let n = place_of(table, key);
    let new = without(table, key);
    lemma_place(table, key);
    lemma_place(table, other);
    if has(table, key) {
        assert forall|i: int| 0 <= i < new.len() implies (#[trigger] new[i]).0 != key by {
            if i < n {
                assert(new[i] == table[i]);
            } else {
                assert(new[i] == table[i + 1]);
            }
        }
        lemma_place_at(new, key, new.len() as int);
        if other != key {
            let m = place_of(table, other);
            let at = if m < n {
                m
            } else {
                m - 1
            };
            assert forall|i: int| 0 <= i < at implies (#[trigger] new[i]).0 != other by {
                if i < n {
                    assert(new[i] == table[i]);
                } else {
                    assert(new[i] == table[i + 1]);
                }
            }
            lemma_place_at(new, other, at);
        }
    }
}

/// What was put in and taken out again leaves the table as it was, where there was
/// nothing for that key.
pub proof fn law_taking_undoes_putting<W>(table: Seq<(Seq<char>, W)>, key: Seq<char>, value: W)
    requires
        value_at(table, key) is None,
    ensures
        without(with(table, key, value), key) == table,
{
    let new = with(table, key, value);
    lemma_place(table, key);
    lemma_place_at(new, key, table.len() as int);
    assert(new.remove(table.len() as int) =~= table);
}

/// A table from texts to values. No key occurs twice.
#[derive(Debug, PartialEq, Eq)]
pub struct Table<V> {
    entries: Vec<(String, V)>,
}

impl<V: DeepView> DeepView for Table<V> {
    type V = Seq<(Seq<char>, V::V)>;

    closed spec fn deep_view(&self) -> Seq<(Seq<char>, V::V)> {
        self.entries.deep_view()
    }
}

impl<V> Table<V> {
    #[verifier::type_invariant]
    spec fn keys_are_different(self) -> bool {
        forall|i: int, j: int|
            0 <= i < j < self.entries@.len() ==> (#[trigger] self.entries@[i]).0@ != (
            #[trigger] self.entries@[j]).0@
    }
}

impl<V: DeepView> Table<V> {
    /// An empty table.
    pub fn new() -> (r: Table<V>)
        ensures
            r.deep_view() == Seq::<(Seq<char>, V::V)>::empty(),
    {
        let r = Table { entries: Vec::new() };
        proof {
            assert(r.deep_view() =~= Seq::<(Seq<char>, V::V)>::empty());
        }
        r
    }

    /// How many entries there are.
    pub fn len(&self) -> (n: usize)
        ensures
            n == self.deep_view().len(),
            keys_differ(self.deep_view()),
    {
        proof {
            use_type_invariant(self);
            let all = self.deep_view();
            assert forall|i: int, j: int| 0 <= i < j < all.len() implies (#[trigger] all[i]).0 != (
            #[trigger] all[j]).0 by {
                assert(all[i].0 == self.entries@[i].0@);
                assert(all[j].0 == self.entries@[j].0@);
            }
        }
        self.entries.len()
    }

    /// The key of an entry.
    pub fn key(&self, i: usize) -> (r: &String)
        requires
            i < self.deep_view().len(),
        ensures
            r@ == self.deep_view()[i as int].0,
    {
        &self.entries[i].0
    }

    /// The value of an entry.
    pub fn value(&self, i: usize) -> (r: &V)
        requires
            i < self.deep_view().len(),
        ensures
            r.deep_view() == self.deep_view()[i as int].1,
    {
        &self.entries[i].1
    }

    /// The place of the entry for `key`, or the number of entries.
    fn find(&self, key: &str) -> (n: usize)
        ensures
            n == place_of(self.deep_view(), key@),
            n <= self.entries@.len(),
    {
        let ghost all = self.deep_view();
        let mut n: usize = 0;
        while n < self.entries.len()
            invariant
                all == self.deep_view(),
                n <= self.entries@.len(),
                forall|i: int| 0 <= i < n ==> (#[trigger] all[i]).0 != key@,
            decreases self.entries@.len() - n,
        {
            proof {
                assert(all[n as int].0 == self.entries@[n as int].0@);
            }
            if text::same(self.entries[n].0.as_str(), key) {
                proof {
                    lemma_place_at(all, key@, n as int);
                }
                return n;
            }
            n = n + 1;
        }
        proof {
            lemma_place_at(all, key@, n as int);
        }
        n
    }

    /// The value for `key`.
    pub fn get(&self, key: &str) -> (r: Option<&V>)
        ensures
            r.deep_view() == value_at(self.deep_view(), key@),
    {
        let n: usize = self.find(key);
        if n < self.entries.len() {
            Some(self.value(n))
        } else {
            None
        }
    }

    /// Whether there is an entry for `key`.
    pub fn contains(&self, key: &str) -> (r: bool)
        ensures
            r == has(self.deep_view(), key@),
    {
        self.find(key) < self.entries.len()
    }

    /// Adds an entry for `key`, for which there is none.
    pub fn add(&mut self, key: &str, value: V)
        requires
            forall|i: int|
                0 <= i < old(self).deep_view().len() ==> (#[trigger] old(self).deep_view()[i]).0
                    != key@,
        ensures
            final(self).deep_view() == old(self).deep_view().push((key@, value.deep_view())),
            keys_differ(final(self).deep_view()),
    {
        let ghost before = self.deep_view();
        proof {
            lemma_place_at(before, key@, before.len() as int);
        }
        self.put(key, value);
    }

    /// Puts `value` in for `key`.
    pub fn put(&mut self, key: &str, value: V)
        ensures
            final(self).deep_view() == with(old(self).deep_view(), key@, value.deep_view()),
            keys_differ(final(self).deep_view()),
    {
        let ghost before = self.deep_view();
        let n: usize = self.find(key);
        let number: usize = self.len();
        let mut entries: Vec<(String, V)> = Vec::new();
        std::mem::swap(&mut entries, &mut self.entries);
        if n < number {
            entries.set(n, (key.to_owned(), value));
        } else {
            entries.push((key.to_owned(), value));
        }
        proof {
            let all = entries.deep_view();
            assert(all =~= with(before, key@, value.deep_view()));
            law_with_keeps_keys_different(before, key@, value.deep_view());
            assert forall|i: int, j: int| 0 <= i < j < entries@.len() implies (
            #[trigger] entries@[i]).0@ != (#[trigger] entries@[j]).0@ by {
                assert(all[i].0 == entries@[i].0@);
                assert(all[j].0 == entries@[j].0@);
            }
        }
        self.entries = entries;
    }

    /// Takes the value for `key` out.
    pub fn take(&mut self, key: &str) -> (r: Option<V>)
        ensures
            final(self).deep_view() == without(old(self).deep_view(), key@),
            r.deep_view() == value_at(old(self).deep_view(), key@),
            keys_differ(final(self).deep_view()),
            value_at(final(self).deep_view(), key@) is None,
    {
        let ghost before = self.deep_view();
        let n: usize = self.find(key);
        let number: usize = self.len();
        proof {
            law_without_keeps_keys_different(before, key@);
            law_without(before, key@, key@);
        }
        if n >= number {
            return None;
        }
        let mut entries: Vec<(String, V)> = Vec::new();
        std::mem::swap(&mut entries, &mut self.entries);
        proof {
            assert(before[n as int].1 == entries@[n as int].1.deep_view());
        }
        let (_, value) = entries.remove(n);
        proof {
            let all = entries.deep_view();
            assert(all =~= before.remove(n as int));
            assert forall|i: int, j: int| 0 <= i < j < entries@.len() implies (
            #[trigger] entries@[i]).0@ != (#[trigger] entries@[j]).0@ by {
                assert(all[i].0 == entries@[i].0@);
                assert(all[j].0 == entries@[j].0@);
            }
        }
        self.entries = entries;
        Some(value)
    }
}

} // verus!
