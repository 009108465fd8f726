//! Tables: values found by a key, each key at most once.

use vstd::prelude::*;

use crate::order;
use crate::text::same;

verus! {

/// What can be the key of a table.
pub trait Key: View + Sized {
    /// Whether two keys are the same.
    fn same_key(&self, other: &Self) -> (r: bool)
        ensures
            r == (self@ == other@),
    ;
}

impl Key for String {
    fn same_key(&self, other: &Self) -> (r: bool) {
        same(self.as_str(), other.as_str())
    }
}

/// A finite map from keys to values. The rows stand in the order in which their
/// keys were first inserted.
pub struct Table<K, V> {
    entries: Vec<(K, V)>,
}

/// Whether no key occurs twice.
pub open spec fn distinct_keys<A, B>(rows: Seq<(A, B)>) -> bool {
    forall|i: int, j: int|
        0 <= i < rows.len() && 0 <= j < rows.len() && (#[trigger] rows[i]).0 == (
        #[trigger] rows[j]).0 ==> i == j
}

/// Whether `k` is the key of some row.
pub open spec fn has_row<A, B>(rows: Seq<(A, B)>, k: A) -> bool {
    exists|i: int| 0 <= i < rows.len() && (#[trigger] rows[i]).0 == k
}

/// The place of the row with the key `k`.
pub open spec fn row_of<A, B>(rows: Seq<(A, B)>, k: A) -> int {
    choose|i: int| 0 <= i < rows.len() && (#[trigger] rows[i]).0 == k
}

/// The rows as a map.
pub open spec fn map_of<A, B>(rows: Seq<(A, B)>) -> Map<A, B> {
    Map::new(|k: A| has_row(rows, k), |k: A| rows[row_of(rows, k)].1)
}

/// The map of rows with distinct keys takes each key to the value of its row.
pub proof fn lemma_map_of<A, B>(rows: Seq<(A, B)>)
    requires
        distinct_keys(rows),
    ensures
        forall|i: int|
            0 <= i < rows.len() ==> map_of(rows).contains_key((#[trigger] rows[i]).0) && map_of(
                rows,
            )[rows[i].0] == rows[i].1,
        forall|k: A| #[trigger]
            map_of(rows).contains_key(k) ==> {
                &&& 0 <= row_of(rows, k) < rows.len()
                &&& rows[row_of(rows, k)] == (k, map_of(rows)[k])
            },
{
    assert forall|i: int| 0 <= i < rows.len() implies map_of(rows).contains_key(
        (#[trigger] rows[i]).0,
    ) && map_of(rows)[rows[i].0] == rows[i].1 by {
        assert(has_row(rows, rows[i].0));
        assert(rows[row_of(rows, rows[i].0)].0 == rows[i].0);
    }
}

impl<K: Key, V: View> Table<K, V> {
    /// The rows, in order.
    pub closed spec fn rows(&self) -> Seq<(K::V, V::V)> {
        Seq::new(self.entries@.len(), |i: int| (self.entries@[i].0@, self.entries@[i].1@))
    }

    /// Each key occurs once.
    pub open spec fn wf(&self) -> bool {
        distinct_keys(self.rows())
    }

    /// An empty table.
    pub fn new() -> (r: Self)
        ensures
            r.wf(),
            r.rows() == Seq::<(K::V, V::V)>::empty(),
            r@ == Map::<K::V, V::V>::empty(),
    {
        let r = Table { entries: Vec::new() };
        assert(r.rows() =~= Seq::<(K::V, V::V)>::empty());
        assert(r@ =~= Map::<K::V, V::V>::empty());
        r
    }

    /// The number of rows.
    pub fn len(&self) -> (r: usize)
        ensures
            r == self.rows().len(),
    {
        self.entries.len()
    }

    /// The key of a row.
    pub fn key_at(&self, i: usize) -> (r: &K)
        requires
            i < self.rows().len(),
        ensures
            r@ == self.rows()[i as int].0,
    {
        &self.entries[i].0
    }

    /// The value of a row.
    pub fn value_at(&self, i: usize) -> (r: &V)
        requires
            i < self.rows().len(),
        ensures
            r@ == self.rows()[i as int].1,
    {
        &self.entries[i].1
    }

    fn find(&self, key: &K) -> (r: Option<usize>)
        ensures
            match r {
                Some(i) => i < self.rows().len() && self.rows()[i as int].0 == key@,
                None => !has_row(self.rows(), key@),
            },
    {
        let mut i: usize = 0;
        while i < self.entries.len()
            invariant
                i <= self.entries@.len(),
                forall|j: int| 0 <= j < i ==> (#[trigger] self.rows()[j]).0 != key@,
            decreases self.entries@.len() - i,
        {
            if self.entries[i].0.same_key(key) {
                return Some(i);
            }
            i += 1;
        }
        None
    }

    /// The value of `key`.
    pub fn get(&self, key: &K) -> (r: Option<&V>)
        requires
            self.wf(),
        ensures
            match r {
                Some(v) => self@.contains_key(key@) && self@[key@] == v@,
                None => !self@.contains_key(key@),
            },
    {
        proof {
            lemma_map_of(self.rows());
        }
        match self.find(key) {
            Some(i) => {
                assert(self.rows()[i as int].0 == key@);
                Some(&self.entries[i].1)
            },
            None => None,
        }
    }

    /// Whether `key` has a value.
    pub fn contains_key(&self, key: &K) -> (r: bool)
        requires
            self.wf(),
        ensures
            r == self@.contains_key(key@),
    {
        self.get(key).is_some()
    }

    /// Gives `key` the value `value`, in place of one that it may have.
    pub fn insert(&mut self, key: K, value: V)
        requires
            old(self).wf(),
        ensures
            final(self).wf(),
            final(self)@ == old(self)@.insert(key@, value@),
    {
        let ghost k = key@;
        let ghost v = value@;
        let ghost before = self.rows();
        proof {
            lemma_map_of(before);
        }
        match self.find(&key) {
            Some(i) => {
                self.entries.set(i, (key, value));
                assert(self.rows() =~= before.update(i as int, (k, v)));
            },
            None => {
                self.entries.push((key, value));
                assert(self.rows() =~= before.push((k, v)));
            },
        }
        let ghost after = self.rows();
        proof {
            assert(distinct_keys(after));
            lemma_map_of(after);
            assert forall|q: K::V| #[trigger]
                map_of(after).contains_key(q) == map_of(before).insert(k, v).contains_key(q) by {
                if has_row(before, q) {
                    let i = row_of(before, q);
                    assert(before[i].0 == q);
                    assert(after[i].0 == q);
                }
                if has_row(after, q) && q != k {
                    let i = row_of(after, q);
                    assert(after[i].0 == q);
                    assert(before[i].0 == q);
                }
                if q == k {
                    assert(exists|i: int| 0 <= i < after.len() && (#[trigger] after[i]).0 == k) by {
                        if has_row(before, k) {
                            let i = row_of(before, k);
                            assert(after[i].0 == k);
                        } else {
                            assert(after[after.len() - 1].0 == k);
                        }
                    }
                }
            }
            assert forall|q: K::V| #[trigger]
                map_of(after).contains_key(q) implies map_of(after)[q] == map_of(before).insert(
                k,
                v,
            )[q] by {
                let i = row_of(after, q);
                assert(after[i].0 == q);
                if q != k {
                    assert(before[i] == after[i]);
                }
            }
            assert(self@ =~= old(self)@.insert(k, v));
        }
    }

    /// Removes `key` and gives back the value that it had.
    pub fn remove(&mut self, key: &K) -> (r: Option<V>)
        requires
            old(self).wf(),
        ensures
            final(self).wf(),
            final(self)@ == old(self)@.remove(key@),
            match r {
                Some(v) => old(self)@.contains_key(key@) && old(self)@[key@] == v@,
                None => !old(self)@.contains_key(key@),
            },
    {
        let ghost before = self.rows();
        let ghost k = key@;
        proof {
            lemma_map_of(before);
        }
        match self.find(key) {
            None => {
                assert(self@ =~= old(self)@.remove(key@));
                None
            },
            Some(i) => {
                let (_, value) = self.entries.remove(i);
                let ghost after = self.rows();
                proof {
                    assert(before[i as int].0 == k);
                    assert(after =~= before.remove(i as int));
                    assert forall|a: int, b: int|
                        0 <= a < after.len() && 0 <= b < after.len() && (#[trigger] after[a]).0 == (
                        #[trigger] after[b]).0 implies a == b by {
                        let a0 = if a < i { a } else { a + 1 };
                        let b0 = if b < i { b } else { b + 1 };
                        assert(before[a0] == after[a] && before[b0] == after[b]);
                    }
                    lemma_map_of(after);
                    assert forall|q: K::V| #[trigger]
                        map_of(after).contains_key(q) == map_of(before).remove(k).contains_key(q) by {
                        if has_row(before, q) && q != k {
                            let j = row_of(before, q);
                            assert(before[j].0 == q);
                            assert(after[if j < i { j } else { j - 1 }].0 == q);
                        }
                        if has_row(after, q) {
                            let j = row_of(after, q);
                            let j0 = if j < i { j } else { j + 1 };
                            assert(before[j0] == after[j]);
                            assert(before[j0].0 == q);
                            if q == k {
                                assert(before[i as int].0 == before[j0].0);
                            }
                        }
                    }
                    assert forall|q: K::V| #[trigger]
                        map_of(after).contains_key(q) implies map_of(after)[q] == map_of(
                        before,
                    ).remove(k)[q] by {
                        let j = row_of(after, q);
                        let j0 = if j < i { j } else { j + 1 };
                        assert(before[j0] == after[j]);
                    }
                    assert(self@ =~= old(self)@.remove(k));
                }
                Some(value)
            },
        }
    }
}

impl<K: Key, V: View> View for Table<K, V> {
    type V = Map<K::V, V::V>;

    open spec fn view(&self) -> Map<K::V, V::V> {
        map_of(self.rows())
    }
}

// ---------------------------------------------------------------------------
// Picking values out of a table
// ---------------------------------------------------------------------------

/// Values that can be copied.
pub trait Duplicate: View + Sized {
    /// A copy of the value.
    fn duplicate(&self) -> (r: Self)
        ensures
            r@ == self@,
    ;
}

/// A question that is asked of each value of a table.
pub trait Pick<V: View> {
    /// Whether the value is one of those asked for.
    spec fn picks(&self, v: V::V) -> bool;

    /// Whether the value is one of those asked for.
    fn pick(&self, v: &V) -> (r: bool)
        ensures
            r == self.picks(v@),
    ;
}

/// The values of a map that are asked for.
pub open spec fn picked<K, V: View, P: Pick<V>>(m: Map<K, V::V>, p: P) -> Set<V::V> {
    Set::new(
        |v: V::V| p.picks(v) && exists|k: K| #[trigger] m.contains_key(k) && m[k] == v,
    )
}

/// Whether no value occurs under two keys.
pub open spec fn injective<K, B>(m: Map<K, B>) -> bool {
    forall|a: K, b: K| #[trigger]
        m.contains_key(a) && #[trigger] m.contains_key(b) && m[a] == m[b] ==> a == b
}

impl<K: Key, V: Duplicate> Table<K, V> {
    /// Copies of the values that are asked for, each once.
    pub fn select<P: Pick<V>>(&self, p: &P) -> (r: Vec<V>)
        requires
            self.wf(),
            injective(self@),
        ensures
            order::views(r@).no_duplicates(),
            order::views(r@).to_set() == picked::<K::V, V, P>(self@, *p),
    {
        let ghost rows = self.rows();
        let mut found: Vec<V> = Vec::new();
        let mut i: usize = 0;
        while i < self.entries.len()
            invariant
                self.wf(),
                injective(self@),
                rows == self.rows(),
                i <= self.entries@.len(),
                order::views(found@).no_duplicates(),
                forall|v: V::V| #[trigger]
                    order::views(found@).contains(v) <==> p.picks(v) && exists|j: int|
                        0 <= j < i && (#[trigger] rows[j]).1 == v,
            decreases self.entries@.len() - i,
        {
            let ghost before = order::views(found@);
            let ghost row = rows[i as int];
            proof {
                lemma_map_of(rows);
                assert(self@.contains_key(row.0));
                assert(self.entries@[i as int].1@ == row.1);
            }
            if p.pick(&self.entries[i].1) {
                found.push(self.entries[i].1.duplicate());
                assert(order::views(found@) =~= before.push(row.1));
                assert(!before.contains(row.1)) by {
                    if before.contains(row.1) {
                        let j = choose|j: int| 0 <= j < i && (#[trigger] rows[j]).1 == row.1;
                        assert(self@.contains_key(rows[j].0));
                        assert(rows[j].0 == row.0);
                    }
                }
            }
            proof {
                let after = order::views(found@);
                assert forall|v: V::V| #[trigger]
                    after.contains(v) <==> p.picks(v) && exists|j: int|
                        0 <= j < i + 1 && (#[trigger] rows[j]).1 == v by {
                    if after.contains(v) {
                        if before.contains(v) {
                            let j = choose|j: int| 0 <= j < i && (#[trigger] rows[j]).1 == v;
                            assert(rows[j].1 == v);
                        } else {
                            assert(rows[i as int].1 == v);
                        }
                    }
                    if p.picks(v) && exists|j: int| 0 <= j < i + 1 && (#[trigger] rows[j]).1 == v {
                        let j = choose|j: int| 0 <= j < i + 1 && (#[trigger] rows[j]).1 == v;
                        if j < i {
                            assert(before.contains(v));
                            let k = choose|k: int| 0 <= k < before.len() && before[k] == v;
                            assert(after[k] == v);
                        } else {
                            assert(after[after.len() - 1] == v);
                        }
                    }
                }
            }
            i += 1;
        }
        proof {
            lemma_map_of(rows);
            let list = order::views(found@);
            let set = picked::<K::V, V, P>(self@, *p);
            assert forall|v: V::V| list.to_set().contains(v) <==> set.contains(v) by {
                if list.contains(v) {
                    let j = choose|j: int| 0 <= j < i && (#[trigger] rows[j]).1 == v;
                    assert(self@.contains_key(rows[j].0));
                }
                if set.contains(v) {
                    let k = choose|k: K::V| #[trigger] self@.contains_key(k) && self@[k] == v;
                    let j = row_of(rows, k);
                    assert(rows[j].1 == v);
                }
            }
            assert(list.to_set() =~= set);
        }
        found
    }
}

} // verus!
