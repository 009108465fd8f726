//! The order of strings, and sorting by it.

use vstd::prelude::*;

use crate::text::characters;

verus! {

/// Lexicographic order of strings by code point, which is also their order by
/// UTF-8 bytes.
pub open spec fn text_le(a: Seq<char>, b: Seq<char>) -> bool
    decreases a.len(),
{
    if a.len() == 0 {
        true
    } else if b.len() == 0 {
        false
    } else if a[0] != b[0] {
        a[0] < b[0]
    } else {
        text_le(a.skip(1), b.skip(1))
    }
}

/// Lexicographic order of lists of strings.
pub open spec fn keys_le(a: Seq<Seq<char>>, b: Seq<Seq<char>>) -> bool
    decreases a.len(),
{
    if a.len() == 0 {
        true
    } else if b.len() == 0 {
        false
    } else if a[0] != b[0] {
        text_le(a[0], b[0])
    } else {
        keys_le(a.skip(1), b.skip(1))
    }
}

pub proof fn lemma_text_le_total(a: Seq<char>, b: Seq<char>)
    ensures
        text_le(a, b) || text_le(b, a),
        a == b ==> text_le(a, b),
    decreases a.len(),
{
    if a.len() > 0 && b.len() > 0 && a[0] == b[0] {
        lemma_text_le_total(a.skip(1), b.skip(1));
    }
}

pub proof fn lemma_text_le_antisymmetric(a: Seq<char>, b: Seq<char>)
    requires
        text_le(a, b),
        text_le(b, a),
    ensures
        a == b,
    decreases a.len(),
{
    if a.len() > 0 && b.len() > 0 {
        lemma_text_le_antisymmetric(a.skip(1), b.skip(1));
        assert(a =~= seq![a[0]] + a.skip(1));
        assert(b =~= seq![b[0]] + b.skip(1));
    } else {
        assert(a =~= b);
    }
}

pub proof fn lemma_text_le_transitive(a: Seq<char>, b: Seq<char>, c: Seq<char>)
    requires
        text_le(a, b),
        text_le(b, c),
    ensures
        text_le(a, c),
    decreases a.len(),
{
    if a.len() > 0 && b.len() > 0 && c.len() > 0 && a[0] == b[0] && b[0] == c[0] {
        lemma_text_le_transitive(a.skip(1), b.skip(1), c.skip(1));
    }
}

pub proof fn lemma_keys_le_total(a: Seq<Seq<char>>, b: Seq<Seq<char>>)
    ensures
        keys_le(a, b) || keys_le(b, a),
        a == b ==> keys_le(a, b),
    decreases a.len(),
{
    if a.len() > 0 && b.len() > 0 {
        lemma_text_le_total(a[0], b[0]);
        lemma_keys_le_total(a.skip(1), b.skip(1));
    }
}

pub proof fn lemma_keys_le_antisymmetric(a: Seq<Seq<char>>, b: Seq<Seq<char>>)
    requires
        keys_le(a, b),
        keys_le(b, a),
    ensures
        a == b,
    decreases a.len(),
{
    if a.len() > 0 && b.len() > 0 {
        if a[0] != b[0] {
            lemma_text_le_antisymmetric(a[0], b[0]);
        }
        lemma_keys_le_antisymmetric(a.skip(1), b.skip(1));
        assert(a =~= seq![a[0]] + a.skip(1));
        assert(b =~= seq![b[0]] + b.skip(1));
    } else {
        assert(a =~= b);
    }
}

pub proof fn lemma_keys_le_transitive(
    a: Seq<Seq<char>>,
    b: Seq<Seq<char>>,
    c: Seq<Seq<char>>,
)
    requires
        keys_le(a, b),
        keys_le(b, c),
    ensures
        keys_le(a, c),
    decreases a.len(),
{
    if a.len() > 0 && b.len() > 0 && c.len() > 0 {
        if a[0] == b[0] && b[0] == c[0] {
            lemma_keys_le_transitive(a.skip(1), b.skip(1), c.skip(1));
        } else if a[0] != b[0] && b[0] != c[0] {
            lemma_text_le_transitive(a[0], b[0], c[0]);
            if a[0] == c[0] {
                lemma_text_le_antisymmetric(a[0], b[0]);
            }
        }
    }
}

/// Whether `a` stands before `b` or equals it.
pub fn not_after(a: &str, b: &str) -> (r: bool)
    ensures
        r == text_le(a@, b@),
{
    let left = characters(a);
    let right = characters(b);
    let mut i: usize = 0;
    assert(a@.skip(0) =~= a@);
    assert(b@.skip(0) =~= b@);
    while i < left.len() && i < right.len()
        invariant
            left@ == a@,
            right@ == b@,
            i <= left@.len(),
            i <= right@.len(),
            text_le(a@, b@) == text_le(a@.skip(i as int), b@.skip(i as int)),
        decreases left@.len() - i,
    {
        if left[i] != right[i] {
            return left[i] < right[i];
        }
        assert(a@.skip(i as int).skip(1) =~= a@.skip(i + 1));
        assert(b@.skip(i as int).skip(1) =~= b@.skip(i + 1));
        i += 1;
    }
    i == left.len()
}

/// The views of a list of values.
pub open spec fn views<T: View>(v: Seq<T>) -> Seq<T::V> {
    Seq::new(v.len(), |i: int| v[i]@)
}

/// Values that are listed in the order of some of their strings.
pub trait Ranked: View + Sized {
    /// The strings by which values are ordered, the most significant first.
    spec fn rank(v: Self::V) -> Seq<Seq<char>>;

    /// Whether this value may stand before `other`.
    fn may_precede(&self, other: &Self) -> (r: bool)
        ensures
            r == keys_le(Self::rank(self@), Self::rank(other@)),
    ;
}

/// Whether a list of views is in the order of the type `T`.
pub open spec fn in_order<T: Ranked>(s: Seq<T::V>) -> bool {
    forall|i: int, j: int|
        0 <= i <= j < s.len() ==> keys_le(T::rank(#[trigger] s[i]), T::rank(#[trigger] s[j]))
}

/// `r` lists what `s` lists, in order.
pub open spec fn is_sorted_copy<T: Ranked>(r: Seq<T::V>, s: Seq<T::V>) -> bool {
    &&& in_order::<T>(r)
    &&& r.to_multiset() == s.to_multiset()
}

/// `r` lists the values of a set, each once and in order.
pub open spec fn is_listing<T: Ranked>(r: Seq<T::V>, s: Set<T::V>) -> bool {
    &&& in_order::<T>(r)
    &&& r.no_duplicates()
    &&& r.to_set() == s
}

/// A sorted copy has the same members, each as often.
pub proof fn lemma_sorted_copy<T: Ranked>(r: Seq<T::V>, s: Seq<T::V>)
    requires
        is_sorted_copy::<T>(r, s),
    ensures
        r.len() == s.len(),
        r.to_set() == s.to_set(),
        forall|x: T::V| r.contains(x) <==> s.contains(x),
        s.no_duplicates() ==> r.no_duplicates(),
{
    broadcast use vstd::seq_lib::group_to_multiset_ensures;

    assert(r.len() == r.to_multiset().len());
    assert(s.len() == s.to_multiset().len());
    assert forall|x: T::V| r.contains(x) <==> s.contains(x) by {
        assert(r.contains(x) <==> r.to_multiset().count(x) > 0);
        assert(s.contains(x) <==> s.to_multiset().count(x) > 0);
    }
    assert(r.to_set() =~= s.to_set());
    if s.no_duplicates() {
        s.lemma_multiset_has_no_duplicates();
        r.lemma_multiset_has_no_duplicates_conv();
    }
}

/// There is one sorted copy, where values are told apart by the strings that they are
/// ordered by.
pub proof fn lemma_sorted_copy_is_unique<T: Ranked>(r: Seq<T::V>, q: Seq<T::V>)
    requires
        in_order::<T>(r),
        in_order::<T>(q),
        r.to_multiset() == q.to_multiset(),
        forall|a: T::V, b: T::V| #[trigger] T::rank(a) == #[trigger] T::rank(b) ==> a == b,
    ensures
        r == q,
    decreases r.len(),
{
    broadcast use vstd::seq_lib::group_to_multiset_ensures;

    assert(r.len() == r.to_multiset().len());
    assert(q.len() == q.to_multiset().len());
    if r.len() > 0 {
        assert(r.contains(q[0])) by {
            assert(q.contains(q[0]));
            assert(q.to_multiset().count(q[0]) > 0);
        }
        assert(q.contains(r[0])) by {
            assert(r.contains(r[0]));
            assert(r.to_multiset().count(r[0]) > 0);
        }
        let i = choose|i: int| 0 <= i < r.len() && r[i] == q[0];
        let j = choose|j: int| 0 <= j < q.len() && q[j] == r[0];
        assert(keys_le(T::rank(r[0]), T::rank(r[i])));
        assert(keys_le(T::rank(q[0]), T::rank(q[j])));
        lemma_keys_le_antisymmetric(T::rank(r[0]), T::rank(q[0]));
        assert(r.remove(0) =~= r.skip(1));
        assert(q.remove(0) =~= q.skip(1));
        assert(r.skip(1).to_multiset() == q.skip(1).to_multiset());
        lemma_sorted_copy_is_unique::<T>(r.skip(1), q.skip(1));
        assert(r =~= seq![r[0]] + r.skip(1));
        assert(q =~= seq![q[0]] + q.skip(1));
    } else {
        assert(r =~= q);
    }
}

/// There is a sorted copy, where values are told apart by the strings that they are
/// ordered by.
pub proof fn lemma_sorted_copy_exists<T: Ranked>(s: Seq<T::V>)
    requires
        forall|a: T::V, b: T::V| #[trigger] T::rank(a) == #[trigger] T::rank(b) ==> a == b,
    ensures
        exists|r: Seq<T::V>| #[trigger] is_sorted_copy::<T>(r, s),
{
    let leq = |a: T::V, b: T::V| keys_le(T::rank(a), T::rank(b));
    assert forall|a: T::V| #[trigger] leq(a, a) by {
        lemma_keys_le_total(T::rank(a), T::rank(a));
    }
    assert forall|a: T::V, b: T::V| #[trigger] leq(a, b) && #[trigger] leq(b, a) implies a == b by {
        lemma_keys_le_antisymmetric(T::rank(a), T::rank(b));
    }
    assert forall|a: T::V, b: T::V, c: T::V| #[trigger]
        leq(a, b) && #[trigger] leq(b, c) implies leq(a, c) by {
        lemma_keys_le_transitive(T::rank(a), T::rank(b), T::rank(c));
    }
    assert forall|a: T::V, b: T::V| #[trigger] leq(a, b) || #[trigger] leq(b, a) by {
        lemma_keys_le_total(T::rank(a), T::rank(b));
    }
    let r = s.sort_by(leq);
    s.lemma_sort_by_ensures(leq);
    assert forall|i: int, j: int| 0 <= i <= j < r.len() implies keys_le(
        T::rank(#[trigger] r[i]),
        T::rank(#[trigger] r[j]),
    ) by {
        if i < j {
            assert(leq(r[i], r[j]));
        } else {
            assert(leq(r[i], r[i]));
        }
    }
    assert(is_sorted_copy::<T>(r, s));
}

fn insert_in_order<T: Ranked>(v: &mut Vec<T>, x: T)
    requires
        in_order::<T>(views(old(v)@)),
    ensures
        in_order::<T>(views(final(v)@)),
        views(final(v)@).to_multiset() == views(old(v)@).to_multiset().insert(x@),
{
    let mut at: usize = v.len();
    while at > 0 && !v[at - 1].may_precede(&x)
        invariant
            at <= v@.len(),
            v@ == old(v)@,
            in_order::<T>(views(v@)),
            forall|j: int|
                at <= j < v@.len() ==> keys_le(T::rank(x@), T::rank(#[trigger] views(v@)[j])),
        decreases at,
    {
        proof {
            lemma_keys_le_total(T::rank(v@[at - 1]@), T::rank(x@));
            assert(views(v@)[at - 1] == v@[at - 1]@);
        }
        at -= 1;
    }
    let ghost before = views(v@);
    let ghost x_view = x@;
    v.insert(at, x);
    let ghost after = views(v@);
    assert(after =~= before.insert(at as int, x_view));
    proof {
        broadcast use vstd::seq_lib::group_to_multiset_ensures;

        if at > 0 {
            assert(before[at - 1] == old(v)@[at - 1]@);
        }
        assert forall|i: int, j: int| 0 <= i <= j < after.len() implies keys_le(
            T::rank(#[trigger] after[i]),
            T::rank(#[trigger] after[j]),
        ) by {
            lemma_keys_le_total(T::rank(x_view), T::rank(x_view));
            let i0 = if i < at { i } else { i - 1 };
            let j0 = if j < at { j } else { j - 1 };
            if i != at && j != at {
                assert(keys_le(T::rank(before[i0]), T::rank(before[j0])));
            } else if i == at && j != at {
                assert(keys_le(T::rank(x_view), T::rank(before[j0])));
            } else if i != at && j == at {
                assert(keys_le(T::rank(before[i]), T::rank(before[at - 1])));
                lemma_keys_le_transitive(
                    T::rank(before[i]),
                    T::rank(before[at - 1]),
                    T::rank(x_view),
                );
            }
        }
    }
}

/// The values of `v` in order.
pub fn sort<T: Ranked>(v: Vec<T>) -> (r: Vec<T>)
    ensures
        is_sorted_copy::<T>(views(r@), views(v@)),
{
    let mut rest = v;
    let mut out: Vec<T> = Vec::new();
    assert(views(out@) =~= Seq::<T::V>::empty());
    proof {
        broadcast use vstd::seq_lib::group_to_multiset_ensures;

        assert(views(out@).to_multiset().add(views(rest@).to_multiset()) =~= views(
            v@,
        ).to_multiset());
    }
    while rest.len() > 0
        invariant
            in_order::<T>(views(out@)),
            views(out@).to_multiset().add(views(rest@).to_multiset()) == views(v@).to_multiset(),
        decreases rest@.len(),
    {
        let ghost before = views(rest@);
        let ghost sorted = views(out@);
        let x = rest.remove(0);
        assert(views(rest@) =~= before.remove(0));
        proof {
            broadcast use vstd::seq_lib::group_to_multiset_ensures;

            assert(before[0] == x@);
        }
        insert_in_order(&mut out, x);
        assert(views(out@).to_multiset().add(views(rest@).to_multiset()) =~= sorted.to_multiset().add(
            before.to_multiset(),
        ));
    }
    proof {
        broadcast use vstd::seq_lib::group_to_multiset_ensures;

        assert(views(rest@) =~= Seq::<T::V>::empty());
        assert(views(out@).to_multiset() =~= views(v@).to_multiset());
    }
    out
}

/// One text stands before another exactly if it is the beginning of it, or if it has the
/// smaller character where the two first differ.
pub proof fn law_texts_are_ordered_by_their_first_difference(
    common: Seq<char>,
    a: Seq<char>,
    b: Seq<char>,
    x: char,
    y: char,
)
    requires
        x != y,
    ensures
        text_le(common, common + b),
        b.len() > 0 ==> !text_le(common + b, common),
        text_le(common.push(x) + a, common.push(y) + b) <==> x < y,
    decreases common.len(),
{
    if common.len() == 0 {
        assert((common + b) =~= b);
        assert((common.push(x) + a)[0] == x);
        assert((common.push(y) + b)[0] == y);
    } else {
        let rest = common.skip(1);
        law_texts_are_ordered_by_their_first_difference(rest, a, b, x, y);
        assert((common + b).skip(1) =~= rest + b);
        assert((common.push(x) + a).skip(1) =~= rest.push(x) + a);
        assert((common.push(y) + b).skip(1) =~= rest.push(y) + b);
        assert((common + b)[0] == common[0]);
        assert((common.push(x) + a)[0] == common[0]);
        assert((common.push(y) + b)[0] == common[0]);
    }
}

/// One list of keys stands before another by the first key in which they differ.
pub proof fn law_keys_are_ordered_by_the_first(
    a: Seq<char>,
    b: Seq<char>,
    x: Seq<Seq<char>>,
    y: Seq<Seq<char>>,
)
    ensures
        a != b ==> (keys_le(seq![a] + x, seq![b] + y) <==> text_le(a, b)),
        keys_le(seq![a] + x, seq![a] + y) <==> keys_le(x, y),
        keys_le(Seq::empty(), x),
{
    assert((seq![a] + x).skip(1) =~= x);
    assert((seq![a] + y).skip(1) =~= y);
    assert((seq![a] + x)[0] == a);
    assert((seq![a] + y)[0] == a);
    assert((seq![b] + y)[0] == b);
}

/// A listing of a set has what the set has, each once, and every value after those that
/// rank before it. A sorted copy has what the original has, each as often, in that order.
pub proof fn law_listings_are_in_order<T: Ranked>(
    r: Seq<T::V>,
    set: Set<T::V>,
    copy: Seq<T::V>,
    list: Seq<T::V>,
    x: T::V,
    i: int,
    j: int,
)
    requires
        is_listing::<T>(r, set),
        is_sorted_copy::<T>(copy, list),
        0 <= i < j,
    ensures
        r.contains(x) <==> set.contains(x),
        j < r.len() ==> r[i] != r[j] && keys_le(T::rank(r[i]), T::rank(r[j])),
        copy.len() == list.len(),
        copy.to_multiset().count(x) == list.to_multiset().count(x),
        copy.contains(x) <==> list.contains(x),
        j < copy.len() ==> keys_le(T::rank(copy[i]), T::rank(copy[j])),
{
    assert(r.contains(x) <==> r.to_set().contains(x));
    lemma_sorted_copy::<T>(copy, list);
}

} // verus!
