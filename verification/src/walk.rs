//! A walk through the groups that a user belongs to, the nearest first.

use vstd::prelude::*;

use crate::nesting;
use crate::nesting::GroupEdge;
use crate::text;
use crate::text::{cat3, same};

verus! {

/// A group that was come upon.
#[derive(Debug, PartialEq, Eq)]
pub struct Visit {
    pub id: String,
    /// The visit from which the walk went up to it; none for a group that the
    /// user is directly in.
    pub from: Option<usize>,
}

impl View for Visit {
    type V = (Seq<char>, Option<int>);

    open spec fn view(&self) -> (Seq<char>, Option<int>) {
        (
            self.id@,
            match self.from {
                Some(i) => Some(i as int),
                None => None,
            },
        )
    }
}

/// The visits of a walk.
pub open spec fn visits(v: Seq<Visit>) -> Seq<(Seq<char>, Option<int>)> {
    Seq::new(v.len(), |i: int| v[i]@)
}

/// Whether the walk has come upon `id`.
pub open spec fn seen(v: Seq<(Seq<char>, Option<int>)>, id: Seq<char>) -> bool {
    exists|i: int| 0 <= i < v.len() && (#[trigger] v[i]).0 == id
}

/// The first visits: the groups that the user is directly in, each once.
pub open spec fn first_visits(direct: Seq<Seq<char>>) -> Seq<(Seq<char>, Option<int>)>
    decreases direct.len(),
{
    if direct.len() == 0 {
        Seq::empty()
    } else {
        let v = first_visits(direct.drop_last());
        if seen(v, direct.last()) {
            v
        } else {
            v.push((direct.last(), None))
        }
    }
}

/// The visits after those groups were added that the visit `i` is directly in
/// and that were not come upon before, in the order of the edges.
pub open spec fn expanded(
    v: Seq<(Seq<char>, Option<int>)>,
    i: int,
    edges: Seq<(Seq<char>, Seq<char>)>,
) -> Seq<(Seq<char>, Option<int>)>
    decreases edges.len(),
{
    if edges.len() == 0 {
        v
    } else {
        let w = expanded(v, i, edges.drop_last());
        let e = edges.last();
        if e.0 == v[i].0 && !seen(w, e.1) {
            w.push((e.1, Some(i)))
        } else {
            w
        }
    }
}

/// The visits after the first `n` of them were expanded, one after the other.
pub open spec fn walked(
    direct: Seq<Seq<char>>,
    edges: Seq<(Seq<char>, Seq<char>)>,
    n: nat,
) -> Seq<(Seq<char>, Option<int>)>
    decreases n,
{
    if n == 0 {
        first_visits(direct)
    } else {
        let v = walked(direct, edges, (n - 1) as nat);
        if n - 1 < v.len() {
            expanded(v, n - 1, edges)
        } else {
            v
        }
    }
}

/// Whether `v` is the whole walk: every visit was expanded.
pub open spec fn is_walk(
    direct: Seq<Seq<char>>,
    edges: Seq<(Seq<char>, Seq<char>)>,
    v: Seq<(Seq<char>, Option<int>)>,
) -> bool {
    v == walked(direct, edges, v.len())
}

/// The groups on the way to the visit `i`, the lowest first.
pub open spec fn trail(v: Seq<(Seq<char>, Option<int>)>, i: int) -> Seq<Seq<char>>
    decreases i,
{
    match v[i].1 {
        Some(f) if 0 <= f < i => trail(v, f).push(v[i].0),
        _ => seq![v[i].0],
    }
}

// ---------------------------------------------------------------------------
// What holds of a walk
// ---------------------------------------------------------------------------

/// Whether the visit `i` is one of a group that the user is directly in, or of
/// a group around that of an earlier visit.
spec fn grounded(
    direct: Seq<Seq<char>>,
    edges: Seq<(Seq<char>, Seq<char>)>,
    v: Seq<(Seq<char>, Option<int>)>,
    i: int,
) -> bool {
    match v[i].1 {
        None => direct.contains(v[i].0),
        Some(f) => 0 <= f < i && edges.contains((v[f].0, v[i].0)),
    }
}

/// No group twice, and each for a reason.
spec fn sound(
    direct: Seq<Seq<char>>,
    edges: Seq<(Seq<char>, Seq<char>)>,
    v: Seq<(Seq<char>, Option<int>)>,
) -> bool {
    &&& forall|i: int, j: int|
        0 <= i < v.len() && 0 <= j < v.len() && (#[trigger] v[i]).0 == (#[trigger] v[j]).0 ==> i
            == j
    &&& forall|i: int| 0 <= i < v.len() ==> #[trigger] grounded(direct, edges, v, i)
    &&& forall|d: Seq<char>| #[trigger] direct.contains(d) ==> seen(v, d)
}

/// Whether `v` begins with `u`.
spec fn extends(u: Seq<(Seq<char>, Option<int>)>, v: Seq<(Seq<char>, Option<int>)>) -> bool {
    u.len() <= v.len() && forall|i: int| 0 <= i < u.len() ==> #[trigger] v[i] == u[i]
}

spec fn far(v: Seq<(Seq<char>, Option<int>)>, i: int) -> nat {
    trail(v, i).len()
}

/// Later visits are not nearer, and none is further than one step above the visit `h`.
spec fn layered(v: Seq<(Seq<char>, Option<int>)>, h: int) -> bool {
    &&& forall|i: int, j: int| 0 <= i <= j < v.len() ==> #[trigger] far(v, i) <= #[trigger] far(v, j)
    &&& 0 <= h < v.len() ==> far(v, v.len() - 1) <= far(v, h) + 1
}

spec fn near(v: Seq<(Seq<char>, Option<int>)>, id: Seq<char>, n: nat) -> bool {
    exists|j: int| 0 <= j < v.len() && (#[trigger] v[j]).0 == id && far(v, j) <= n
}

/// Whatever the visit `k` is directly in was come upon, one step further at most.
spec fn closed_at(
    edges: Seq<(Seq<char>, Seq<char>)>,
    v: Seq<(Seq<char>, Option<int>)>,
    k: int,
) -> bool {
    forall|e: (Seq<char>, Seq<char>)|
        #[trigger] edges.contains(e) && e.0 == v[k].0 ==> near(v, e.1, far(v, k) + 1)
}

proof fn lemma_trail_of_prefix(
    u: Seq<(Seq<char>, Option<int>)>,
    v: Seq<(Seq<char>, Option<int>)>,
    i: int,
)
    requires
        extends(u, v),
        0 <= i < u.len(),
    ensures
        trail(v, i) == trail(u, i),
    decreases i,
{
    assert(v[i] == u[i]);
    match v[i].1 {
        Some(f) if 0 <= f < i => {
            lemma_trail_of_prefix(u, v, f);
        },
        _ => {},
    }
}

proof fn lemma_trails_of_prefix(
    u: Seq<(Seq<char>, Option<int>)>,
    v: Seq<(Seq<char>, Option<int>)>,
)
    requires
        extends(u, v),
    ensures
        forall|i: int| 0 <= i < u.len() ==> #[trigger] trail(v, i) == trail(u, i),
{
    assert forall|i: int| 0 <= i < u.len() implies #[trigger] trail(v, i) == trail(u, i) by {
        lemma_trail_of_prefix(u, v, i);
    }
}

proof fn lemma_first_visits(direct: Seq<Seq<char>>, edges: Seq<(Seq<char>, Seq<char>)>)
    ensures
        sound(direct, edges, first_visits(direct)),
        forall|i: int|
            0 <= i < first_visits(direct).len() ==> (#[trigger] first_visits(direct)[i]).1 is None,
    decreases direct.len(),
{
    if direct.len() > 0 {
        let less = direct.drop_last();
        lemma_first_visits(less, edges);
        let u = first_visits(less);
        let v = first_visits(direct);
        assert forall|d: Seq<char>| less.contains(d) implies #[trigger] direct.contains(d) by {
            let k = choose|k: int| 0 <= k < less.len() && less[k] == d;
            assert(direct[k] == d);
        }
        assert(direct.contains(direct.last()));
        assert forall|i: int| 0 <= i < v.len() implies #[trigger] grounded(
            direct,
            edges,
            v,
            i,
        ) by {
            if i < u.len() {
                assert(grounded(less, edges, u, i));
            }
        }
        assert forall|d: Seq<char>| #[trigger] direct.contains(d) implies seen(v, d) by {
            let k = choose|k: int| 0 <= k < direct.len() && direct[k] == d;
            if k < less.len() {
                assert(less[k] == d);
                assert(less.contains(d));
                let j = choose|j: int| 0 <= j < u.len() && (#[trigger] u[j]).0 == d;
                assert(v[j].0 == d);
            } else if !seen(u, d) {
                assert(v[v.len() - 1].0 == d);
            }
        }
    }
}

proof fn lemma_push_visit(
    direct: Seq<Seq<char>>,
    edges: Seq<(Seq<char>, Seq<char>)>,
    v: Seq<(Seq<char>, Option<int>)>,
    id: Seq<char>,
    i: int,
)
    requires
        sound(direct, edges, v),
        layered(v, i),
        0 <= i < v.len(),
        !seen(v, id),
        edges.contains((v[i].0, id)),
    ensures
        sound(direct, edges, v.push((id, Some(i)))),
        layered(v.push((id, Some(i))), i),
        extends(v, v.push((id, Some(i)))),
        near(v.push((id, Some(i))), id, far(v, i) + 1),
{
    let w = v.push((id, Some(i)));
    assert(extends(v, w));
    lemma_trails_of_prefix(v, w);
    assert forall|d: Seq<char>| #[trigger] direct.contains(d) implies seen(w, d) by {
        let j = choose|j: int| 0 <= j < v.len() && (#[trigger] v[j]).0 == d;
        assert(w[j].0 == d);
    }
    assert forall|k: int| 0 <= k < w.len() implies #[trigger] grounded(direct, edges, w, k) by {
        if k < v.len() {
            assert(grounded(direct, edges, v, k));
        }
    }
    let last = w.len() - 1;
    assert(trail(w, last) == trail(w, i).push(id));
    assert(far(w, last) == far(v, i) + 1);
    assert forall|a: int, b: int| 0 <= a <= b < w.len() implies #[trigger] far(w, a)
        <= #[trigger] far(w, b) by {
        if a < v.len() {
            assert(far(w, a) == far(v, a));
            if b < v.len() {
                assert(far(w, b) == far(v, b));
            } else {
                assert(far(v, a) <= far(v, v.len() - 1));
            }
        }
    }
    assert(far(w, i) == far(v, i));
    assert(w[last].0 == id);
}

proof fn lemma_near_in_longer(
    u: Seq<(Seq<char>, Option<int>)>,
    v: Seq<(Seq<char>, Option<int>)>,
    id: Seq<char>,
    n: nat,
)
    requires
        extends(u, v),
        near(u, id, n),
    ensures
        near(v, id, n),
{
    let j = choose|j: int| 0 <= j < u.len() && (#[trigger] u[j]).0 == id && far(u, j) <= n;
    lemma_trail_of_prefix(u, v, j);
    assert(v[j].0 == id);
}

proof fn lemma_expanded(
    direct: Seq<Seq<char>>,
    all: Seq<(Seq<char>, Seq<char>)>,
    v: Seq<(Seq<char>, Option<int>)>,
    i: int,
    edges: Seq<(Seq<char>, Seq<char>)>,
)
    requires
        sound(direct, all, v),
        layered(v, i),
        0 <= i < v.len(),
        forall|e: (Seq<char>, Seq<char>)| #[trigger] edges.contains(e) ==> all.contains(e),
    ensures
        sound(direct, all, expanded(v, i, edges)),
        layered(expanded(v, i, edges), i),
        extends(v, expanded(v, i, edges)),
        closed_at(edges, expanded(v, i, edges), i),
    decreases edges.len(),
{
    let w = expanded(v, i, edges);
    if edges.len() > 0 {
        let less = edges.drop_last();
        let e = edges.last();
        assert forall|x: (Seq<char>, Seq<char>)| #[trigger] less.contains(x) implies all.contains(
            x,
        ) by {
            let k = choose|k: int| 0 <= k < less.len() && less[k] == x;
            assert(edges[k] == x);
            assert(edges.contains(x));
        }
        lemma_expanded(direct, all, v, i, less);
        let u = expanded(v, i, less);
        assert(u[i] == v[i]);
        assert(edges[edges.len() - 1] == e);
        assert(edges.contains(e));
        if e.0 == v[i].0 && !seen(u, e.1) {
            lemma_push_visit(direct, all, u, e.1, i);
            assert(w == u.push((e.1, Some(i))));
        } else if e.0 == v[i].0 {
            let j = choose|j: int| 0 <= j < u.len() && (#[trigger] u[j]).0 == e.1;
            assert(far(u, j) <= far(u, u.len() - 1));
            assert(near(u, e.1, far(u, i) + 1));
        }
        assert(extends(u, w));
        lemma_trail_of_prefix(u, w, i);
        assert(w[i] == u[i]);
        assert forall|x: (Seq<char>, Seq<char>)| #[trigger]
            edges.contains(x) && x.0 == w[i].0 implies near(w, x.1, far(w, i) + 1) by {
            let k = choose|k: int| 0 <= k < edges.len() && edges[k] == x;
            if k < less.len() {
                assert(less[k] == x);
                assert(less.contains(x));
                lemma_near_in_longer(u, w, x.1, far(u, i) + 1);
            } else {
                assert(x == e);
            }
        }
    }
}

proof fn lemma_walked(direct: Seq<Seq<char>>, edges: Seq<(Seq<char>, Seq<char>)>, n: nat)
    ensures
        sound(direct, edges, walked(direct, edges, n)),
        layered(walked(direct, edges, n), n as int),
        forall|k: int|
            0 <= k < n && k < walked(direct, edges, n).len() ==> #[trigger] closed_at(
                edges,
                walked(direct, edges, n),
                k,
            ),
    decreases n,
{
    let v = walked(direct, edges, n);
    if n == 0 {
        lemma_first_visits(direct, edges);
        assert forall|i: int| 0 <= i < v.len() implies #[trigger] far(v, i) == 1 by {
            assert(v[i].1 is None);
        }
    } else {
        let m = (n - 1) as nat;
        lemma_walked(direct, edges, m);
        let u = walked(direct, edges, m);
        if m < u.len() {
            lemma_expanded(direct, edges, u, m as int, edges);
            lemma_trails_of_prefix(u, v);
            assert forall|k: int| 0 <= k < n && k < v.len() implies #[trigger] closed_at(
                edges,
                v,
                k,
            ) by {
                if k < m {
                    assert(closed_at(edges, u, k));
                    assert(v[k] == u[k]);
                    assert(far(v, k) == far(u, k));
                    assert forall|e: (Seq<char>, Seq<char>)| #[trigger]
                        edges.contains(e) && e.0 == v[k].0 implies near(
                        v,
                        e.1,
                        far(v, k) + 1,
                    ) by {
                        lemma_near_in_longer(u, v, e.1, far(u, k) + 1);
                    }
                }
            }
            if n < v.len() {
                assert(far(v, m as int) <= far(v, n as int));
            }
        }
    }
}

/// Once every visit is expanded, nothing more happens.
pub proof fn lemma_walk_is_final(
    direct: Seq<Seq<char>>,
    edges: Seq<(Seq<char>, Seq<char>)>,
    n: nat,
    m: nat,
)
    requires
        n >= walked(direct, edges, n).len(),
        n <= m,
    ensures
        walked(direct, edges, m) == walked(direct, edges, n),
    decreases m,
{
    if m > n {
        lemma_walk_is_final(direct, edges, n, (m - 1) as nat);
    }
}

/// There is only one walk.
pub proof fn law_walk_is_unique(
    direct: Seq<Seq<char>>,
    edges: Seq<(Seq<char>, Seq<char>)>,
    v: Seq<(Seq<char>, Option<int>)>,
    w: Seq<(Seq<char>, Option<int>)>,
)
    requires
        is_walk(direct, edges, v),
        is_walk(direct, edges, w),
    ensures
        v == w,
{
    if v.len() <= w.len() {
        lemma_walk_is_final(direct, edges, v.len(), w.len());
    } else {
        lemma_walk_is_final(direct, edges, w.len(), v.len());
    }
}

/// No group is come upon twice.
pub proof fn law_walk_has_no_repeats(
    direct: Seq<Seq<char>>,
    edges: Seq<(Seq<char>, Seq<char>)>,
    v: Seq<(Seq<char>, Option<int>)>,
    i: int,
    j: int,
)
    requires
        is_walk(direct, edges, v),
        0 <= i < v.len(),
        0 <= j < v.len(),
        v[i].0 == v[j].0,
    ensures
        i == j,
{
    lemma_walked(direct, edges, v.len());
}

/// The trail of a visit leads from a group that the user is directly in up to
/// the group of the visit, each group directly inside the next.
pub proof fn law_trail_is_a_chain(
    direct: Seq<Seq<char>>,
    edges: Seq<(Seq<char>, Seq<char>)>,
    v: Seq<(Seq<char>, Option<int>)>,
    i: int,
)
    requires
        is_walk(direct, edges, v),
        0 <= i < v.len(),
    ensures
        nesting::is_chain(edges, trail(v, i)),
        direct.contains(trail(v, i)[0]),
        trail(v, i).last() == v[i].0,
{
    lemma_walked(direct, edges, v.len());
    lemma_sound_trail(direct, edges, v, i);
}

proof fn lemma_sound_trail(
    direct: Seq<Seq<char>>,
    edges: Seq<(Seq<char>, Seq<char>)>,
    v: Seq<(Seq<char>, Option<int>)>,
    i: int,
)
    requires
        sound(direct, edges, v),
        0 <= i < v.len(),
    ensures
        nesting::is_chain(edges, trail(v, i)),
        direct.contains(trail(v, i)[0]),
        trail(v, i).last() == v[i].0,
    decreases i,
{
    assert(grounded(direct, edges, v, i));
    match v[i].1 {
        None => {},
        Some(f) => {
            lemma_sound_trail(direct, edges, v, f);
            nesting::lemma_chain_push(edges, trail(v, f), v[i].0);
        },
    }
}

proof fn lemma_chain_end_is_near(
    direct: Seq<Seq<char>>,
    edges: Seq<(Seq<char>, Seq<char>)>,
    v: Seq<(Seq<char>, Option<int>)>,
    path: Seq<Seq<char>>,
)
    requires
        is_walk(direct, edges, v),
        nesting::is_chain(edges, path),
        direct.contains(path[0]),
    ensures
        near(v, path.last(), path.len()),
    decreases path.len(),
{
    lemma_walked(direct, edges, v.len());
    if path.len() == 1 {
        let j = choose|j: int| 0 <= j < v.len() && (#[trigger] v[j]).0 == path[0];
        lemma_direct_is_first(direct, edges, v, j);
    } else {
        let p = path.drop_last();
        assert forall|i: int| 0 <= i < p.len() - 1 implies #[trigger] nesting::is_step(
            edges,
            p,
            i,
        ) by {
            assert(nesting::is_step(edges, path, i));
        }
        lemma_chain_end_is_near(direct, edges, v, p);
        let k = choose|k: int|
            0 <= k < v.len() && (#[trigger] v[k]).0 == p.last() && far(v, k) <= p.len();
        assert(nesting::is_step(edges, path, path.len() - 2));
        assert(closed_at(edges, v, k));
        let e = (p.last(), path.last());
        assert(edges.contains(e));
        let j = choose|j: int|
            0 <= j < v.len() && (#[trigger] v[j]).0 == e.1 && far(v, j) <= far(v, k) + 1;
        assert(v[j].0 == path.last() && far(v, j) <= path.len());
    }
}

/// A group that the user is directly in is reached in one step.
proof fn lemma_direct_is_first(
    direct: Seq<Seq<char>>,
    edges: Seq<(Seq<char>, Seq<char>)>,
    v: Seq<(Seq<char>, Option<int>)>,
    j: int,
)
    requires
        is_walk(direct, edges, v),
        0 <= j < v.len(),
        direct.contains(v[j].0),
    ensures
        far(v, j) == 1,
{
    lemma_first_visits(direct, edges);
    let u = first_visits(direct);
    lemma_first_visits_stay(direct, edges, v.len());
    let k = choose|k: int| 0 <= k < u.len() && (#[trigger] u[k]).0 == v[j].0;
    lemma_walked(direct, edges, v.len());
    assert(v[k] == u[k]);
    assert(k == j);
}

proof fn lemma_first_visits_stay(
    direct: Seq<Seq<char>>,
    edges: Seq<(Seq<char>, Seq<char>)>,
    n: nat,
)
    ensures
        extends(first_visits(direct), walked(direct, edges, n)),
    decreases n,
{
    if n > 0 {
        let m = (n - 1) as nat;
        lemma_first_visits_stay(direct, edges, m);
        lemma_walked(direct, edges, m);
        let u = walked(direct, edges, m);
        if m < u.len() {
            lemma_expanded(direct, edges, u, m as int, edges);
        }
    }
}

/// The walk comes upon exactly those groups that the user belongs to, directly
/// or through other groups.
pub proof fn law_walk_finds_what_is_reached(
    direct: Seq<Seq<char>>,
    edges: Seq<(Seq<char>, Seq<char>)>,
    v: Seq<(Seq<char>, Option<int>)>,
    g: Seq<char>,
)
    requires
        is_walk(direct, edges, v),
    ensures
        seen(v, g) <==> nesting::reached(edges, direct, g),
{
    if seen(v, g) {
        let i = choose|i: int| 0 <= i < v.len() && (#[trigger] v[i]).0 == g;
        law_trail_is_a_chain(direct, edges, v, i);
        let d = trail(v, i)[0];
        assert(nesting::leads(edges, trail(v, i), d, g));
        assert(nesting::inside(edges, d, g));
    }
    if nesting::reached(edges, direct, g) {
        let d = choose|d: Seq<char>| direct.contains(d) && #[trigger] nesting::inside(edges, d, g);
        let path = choose|path: Seq<Seq<char>>| nesting::leads(edges, path, d, g);
        lemma_chain_end_is_near(direct, edges, v, path);
    }
}

/// No way from a group that the user is directly in up to the group of a visit
/// is shorter than the trail of the visit.
pub proof fn law_trail_is_shortest(
    direct: Seq<Seq<char>>,
    edges: Seq<(Seq<char>, Seq<char>)>,
    v: Seq<(Seq<char>, Option<int>)>,
    i: int,
    path: Seq<Seq<char>>,
)
    requires
        is_walk(direct, edges, v),
        0 <= i < v.len(),
        nesting::is_chain(edges, path),
        direct.contains(path[0]),
        path.last() == v[i].0,
    ensures
        trail(v, i).len() <= path.len(),
{
    lemma_chain_end_is_near(direct, edges, v, path);
    lemma_walked(direct, edges, v.len());
}

// ---------------------------------------------------------------------------
// The walk itself
// ---------------------------------------------------------------------------

fn was_seen(v: &Vec<Visit>, id: &str) -> (r: bool)
    ensures
        r == seen(visits(v@), id@),
{
    let mut i: usize = 0;
    while i < v.len()
        invariant
            i <= v@.len(),
            forall|j: int| 0 <= j < i ==> (#[trigger] visits(v@)[j]).0 != id@,
        decreases v@.len() - i,
    {
        if same(v[i].id.as_str(), id) {
            assert(visits(v@)[i as int].0 == id@);
            return true;
        }
        i += 1;
    }
    false
}

proof fn lemma_walk_is_bounded(
    direct: Seq<Seq<char>>,
    edges: Seq<(Seq<char>, Seq<char>)>,
    v: Seq<(Seq<char>, Option<int>)>,
)
    requires
        sound(direct, edges, v),
    ensures
        v.len() <= direct.len() + edges.len(),
{
    let ids = Seq::new(v.len(), |i: int| v[i].0);
    let parents = Seq::new(edges.len(), |i: int| edges[i].1);
    let all = direct + parents;
    assert(ids.no_duplicates()) by {
        assert forall|i: int, j: int| 0 <= i < ids.len() && 0 <= j < ids.len() && i != j implies ids[i]
            != ids[j] by {
            assert(v[i].0 == ids[i] && v[j].0 == ids[j]);
        }
    }
    ids.unique_seq_to_set();
    all.lemma_cardinality_of_set();
    assert forall|id: Seq<char>| ids.to_set().contains(id) implies all.to_set().contains(id) by {
        let i = choose|i: int| 0 <= i < ids.len() && ids[i] == id;
        assert(grounded(direct, edges, v, i));
        match v[i].1 {
            None => {
                let k = choose|k: int| 0 <= k < direct.len() && direct[k] == id;
                assert(all[k] == id);
            },
            Some(f) => {
                let e = (v[f].0, id);
                let k = choose|k: int| 0 <= k < edges.len() && edges[k] == e;
                assert(parents[k] == id);
                assert(all[direct.len() + k] == id);
            },
        }
    }
    vstd::set_lib::lemma_len_subset(ids.to_set(), all.to_set());
}

/// Walks up from the groups that a user is directly in, the nearest groups
/// first, and gives every group that was come upon.
pub fn walk(direct: &Vec<String>, edges: &Vec<GroupEdge>) -> (r: Vec<Visit>)
    ensures
        is_walk(text::texts(direct@), nesting::edges_of(edges@), visits(r@)),
{
    let ghost starts = text::texts(direct@);
    let ghost arrows = nesting::edges_of(edges@);
    let mut out: Vec<Visit> = Vec::new();
    let mut i: usize = 0;
    assert(visits(out@) =~= first_visits(starts.take(0)));
    while i < direct.len()
        invariant
            i <= direct@.len(),
            starts == text::texts(direct@),
            visits(out@) == first_visits(starts.take(i as int)),
        decreases direct@.len() - i,
    {
        let ghost before = visits(out@);
        assert(starts.take(i + 1).drop_last() =~= starts.take(i as int));
        assert(starts.take(i + 1).last() == direct@[i as int]@);
        if !was_seen(&out, direct[i].as_str()) {
            out.push(Visit { id: direct[i].clone(), from: None });
            assert(visits(out@) =~= before.push((direct@[i as int]@, None)));
        }
        i += 1;
    }
    assert(starts.take(i as int) =~= starts);
    let mut head: usize = 0;
    while head < out.len()
        invariant
            starts == text::texts(direct@),
            arrows == nesting::edges_of(edges@),
            head <= out@.len(),
            visits(out@) == walked(starts, arrows, head as nat),
        decreases starts.len() + arrows.len() - head,
    {
        proof {
            lemma_walked(starts, arrows, head as nat);
            lemma_walk_is_bounded(starts, arrows, visits(out@));
        }
        let ghost before = visits(out@);
        let child = out[head].id.clone();
        let mut k: usize = 0;
        assert(arrows.take(0).len() == 0);
        while k < edges.len()
            invariant
                k <= edges@.len(),
                arrows == nesting::edges_of(edges@),
                head < before.len(),
                before.len() <= out@.len(),
                child@ == before[head as int].0,
                visits(out@) == expanded(before, head as int, arrows.take(k as int)),
            decreases edges@.len() - k,
        {
            let ghost so_far = visits(out@);
            assert(arrows.take(k + 1).drop_last() =~= arrows.take(k as int));
            assert(arrows.take(k + 1).last() == edges@[k as int]@);
            if same(edges[k].member.as_str(), child.as_str()) && !was_seen(
                &out,
                edges[k].parent.as_str(),
            ) {
                out.push(Visit { id: edges[k].parent.clone(), from: Some(head) });
                assert(visits(out@) =~= so_far.push((edges@[k as int]@.1, Some(head as int))));
            }
            k += 1;
        }
        assert(arrows.take(k as int) =~= arrows);
        head += 1;
    }
    out
}

/// The identifiers of the groups that were come upon.
pub open spec fn group_ids(v: Seq<(Seq<char>, Option<int>)>) -> Seq<Seq<char>> {
    Seq::new(v.len(), |i: int| v[i].0)
}

/// The groups that a user belongs to, directly or through other groups, each
/// once and the nearest first.
pub fn reached_groups(direct: &Vec<String>, edges: &Vec<GroupEdge>) -> (r: Vec<String>)
    ensures
        exists|v: Seq<(Seq<char>, Option<int>)>| #[trigger]
            is_walk(text::texts(direct@), nesting::edges_of(edges@), v) && text::texts(r@)
                == group_ids(v),
        text::texts(r@).no_duplicates(),
        forall|g: Seq<char>|
            text::texts(r@).contains(g) <==> #[trigger] nesting::reached(
                nesting::edges_of(edges@),
                text::texts(direct@),
                g,
            ),
{
    let ghost starts = text::texts(direct@);
    let ghost arrows = nesting::edges_of(edges@);
    let found = walk(direct, edges);
    let ghost v = visits(found@);
    let mut out: Vec<String> = Vec::new();
    let mut i: usize = 0;
    while i < found.len()
        invariant
            i <= found@.len(),
            v == visits(found@),
            text::texts(out@) == group_ids(v).take(i as int),
        decreases found@.len() - i,
    {
        let ghost before = text::texts(out@);
        out.push(found[i].id.clone());
        i += 1;
        assert(text::texts(out@) =~= before.push(v[i - 1].0));
        assert(group_ids(v).take(i as int) =~= group_ids(v).take(i - 1).push(v[i - 1].0));
    }
    assert(group_ids(v).take(i as int) =~= group_ids(v));
    proof {
        let ids = text::texts(out@);
        assert forall|a: int, b: int| 0 <= a < ids.len() && 0 <= b < ids.len() && a != b implies ids[a]
            != ids[b] by {
            if ids[a] == ids[b] {
                law_walk_has_no_repeats(starts, arrows, v, a, b);
            }
        }
        assert forall|g: Seq<char>| ids.contains(g) <==> #[trigger] nesting::reached(
            arrows,
            starts,
            g,
        ) by {
            law_walk_finds_what_is_reached(starts, arrows, v, g);
            if ids.contains(g) {
                let k = choose|k: int| 0 <= k < ids.len() && ids[k] == g;
                assert(v[k].0 == g);
            }
            if seen(v, g) {
                let k = choose|k: int| 0 <= k < v.len() && (#[trigger] v[k]).0 == g;
                assert(ids[k] == g);
            }
        }
    }
    out
}

/// Whether `a` is `b` or is inside `b`.
pub fn is_inside(edges: &Vec<GroupEdge>, a: &str, b: &str) -> (r: bool)
    ensures
        r == nesting::inside(nesting::edges_of(edges@), a@, b@),
{
    let mut start: Vec<String> = Vec::new();
    start.push(a.to_owned());
    let ghost starts = text::texts(start@);
    let ghost arrows = nesting::edges_of(edges@);
    let found = walk(&start, edges);
    proof {
        law_walk_finds_what_is_reached(starts, arrows, visits(found@), b@);
        assert(starts[0] == a@);
        assert(starts.contains(a@));
        if nesting::reached(arrows, starts, b@) {
            let d = choose|d: Seq<char>|
                starts.contains(d) && #[trigger] nesting::inside(arrows, d, b@);
            assert(d == a@);
        }
    }
    was_seen(&found, b)
}

// ---------------------------------------------------------------------------
// The way in words
// ---------------------------------------------------------------------------

/// The labels of the groups on the way to the visit `i`, with arrows between them.
pub open spec fn way(
    v: Seq<(Seq<char>, Option<int>)>,
    labels: Seq<Seq<char>>,
    i: int,
) -> Seq<char>
    decreases i,
{
    match v[i].1 {
        Some(f) if 0 <= f < i => way(v, labels, f) + " -> "@ + labels[i],
        _ => labels[i],
    }
}

/// The ways to all the visits of a walk.
pub open spec fn ways(
    v: Seq<(Seq<char>, Option<int>)>,
    labels: Seq<Seq<char>>,
) -> Seq<Seq<char>> {
    Seq::new(v.len(), |i: int| way(v, labels, i))
}

/// The ways to all the visits of a walk, from the labels of the groups.
pub fn describe(found: &Vec<Visit>, labels: &Vec<String>) -> (r: Vec<String>)
    requires
        labels@.len() == found@.len(),
    ensures
        text::texts(r@) == ways(visits(found@), text::texts(labels@)),
{
    let ghost v = visits(found@);
    let ghost l = text::texts(labels@);
    let mut out: Vec<String> = Vec::new();
    let mut i: usize = 0;
    while i < found.len()
        invariant
            i <= found@.len(),
            labels@.len() == found@.len(),
            v == visits(found@),
            l == text::texts(labels@),
            out@.len() == i,
            forall|k: int| 0 <= k < i ==> (#[trigger] out@[k])@ == way(v, l, k),
        decreases found@.len() - i,
    {
        assert(v[i as int] == found@[i as int]@);
        let line = match found[i].from {
            Some(f) => if f < i {
                assert(out@[f as int]@ == way(v, l, f as int));
                cat3(out[f].as_str(), " -> ", labels[i].as_str())
            } else {
                labels[i].clone()
            },
            None => labels[i].clone(),
        };
        assert(line@ == way(v, l, i as int));
        out.push(line);
        i += 1;
    }
    assert(text::texts(out@) =~= ways(v, l));
    out
}

/// The way to a visit joins the labels of its trail.
pub proof fn law_way_follows_the_trail(
    v: Seq<(Seq<char>, Option<int>)>,
    names: Map<Seq<char>, Seq<char>>,
    labels: Seq<Seq<char>>,
    i: int,
)
    requires
        0 <= i < v.len(),
        labels.len() == v.len(),
        forall|k: int| 0 <= k < v.len() ==> (#[trigger] labels[k]) == names[v[k].0],
    ensures
        way(v, labels, i) == text::joined(
            trail(v, i).map_values(|id: Seq<char>| names[id]),
            " -> "@,
        ),
    decreases i,
{
    let named = |id: Seq<char>| names[id];
    let all = trail(v, i).map_values(named);
    match v[i].1 {
        Some(f) if 0 <= f < i => {
            law_way_follows_the_trail(v, names, labels, f);
            lemma_trail_nonempty(v, f);
            assert(all.drop_last() =~= trail(v, f).map_values(named));
            assert(all.last() == labels[i]);
        },
        _ => {
            assert(all =~= seq![labels[i]]);
        },
    }
}

proof fn lemma_trail_nonempty(v: Seq<(Seq<char>, Option<int>)>, i: int)
    ensures
        trail(v, i).len() >= 1,
{
}

} // verus!
