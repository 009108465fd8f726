//! Groups inside groups: the graph of memberships, what can be reached in it
//! and by which way.

use vstd::prelude::*;


verus! {

/// A group inside a group.
#[derive(Debug, PartialEq, Eq)]
pub struct GroupEdge {
    /// The group inside.
    pub member: String,
    /// The group around it.
    pub parent: String,
}

impl View for GroupEdge {
    type V = (Seq<char>, Seq<char>);

    open spec fn view(&self) -> (Seq<char>, Seq<char>) {
        (self.member@, self.parent@)
    }
}

impl Clone for GroupEdge {
    fn clone(&self) -> (r: Self)
        ensures
            r@ == self@,
    {
        GroupEdge { member: self.member.clone(), parent: self.parent.clone() }
    }
}

/// The edges of a graph, as pairs of a member and the group around it.
pub open spec fn edges_of(v: Seq<GroupEdge>) -> Seq<(Seq<char>, Seq<char>)> {
    Seq::new(v.len(), |i: int| v[i]@)
}

/// Whether the group at `i` of `path` is directly inside the next one.
pub open spec fn is_step(
    edges: Seq<(Seq<char>, Seq<char>)>,
    path: Seq<Seq<char>>,
    i: int,
) -> bool {
    edges.contains((path[i], path[i + 1]))
}

/// Whether each group of `path` is directly inside the next one.
pub open spec fn is_chain(edges: Seq<(Seq<char>, Seq<char>)>, path: Seq<Seq<char>>) -> bool {
    &&& path.len() >= 1
    &&& forall|i: int| 0 <= i < path.len() - 1 ==> #[trigger] is_step(edges, path, i)
}

/// Whether `path` leads from `a` up to `b`.
pub open spec fn leads(
    edges: Seq<(Seq<char>, Seq<char>)>,
    path: Seq<Seq<char>>,
    a: Seq<char>,
    b: Seq<char>,
) -> bool {
    is_chain(edges, path) && path[0] == a && path.last() == b
}

/// Whether `a` is `b`, or is inside `b` over any number of groups.
pub open spec fn inside(edges: Seq<(Seq<char>, Seq<char>)>, a: Seq<char>, b: Seq<char>) -> bool {
    exists|path: Seq<Seq<char>>| leads(edges, path, a, b)
}

/// Whether `g` is one of `direct`, or one of them is inside `g`.
pub open spec fn reached(
    edges: Seq<(Seq<char>, Seq<char>)>,
    direct: Seq<Seq<char>>,
    g: Seq<char>,
) -> bool {
    exists|d: Seq<char>| direct.contains(d) && #[trigger] inside(edges, d, g)
}

/// Whether no group is inside itself.
pub open spec fn acyclic(edges: Seq<(Seq<char>, Seq<char>)>) -> bool {
    forall|i: int|
        0 <= i < edges.len() ==> !inside(edges, (#[trigger] edges[i]).1, edges[i].0)
}

// ---------------------------------------------------------------------------
// Facts about chains
// ---------------------------------------------------------------------------

/// A group is inside itself by the chain of one.
pub proof fn lemma_inside_reflexive(edges: Seq<(Seq<char>, Seq<char>)>, a: Seq<char>)
    ensures
        inside(edges, a, a),
{
    assert(leads(edges, seq![a], a, a));
}

/// A chain can be made longer at its upper end.
pub proof fn lemma_chain_push(
    edges: Seq<(Seq<char>, Seq<char>)>,
    path: Seq<Seq<char>>,
    b: Seq<char>,
)
    requires
        is_chain(edges, path),
        edges.contains((path.last(), b)),
    ensures
        is_chain(edges, path.push(b)),
{
    let q = path.push(b);
    assert forall|i: int| 0 <= i < q.len() - 1 implies #[trigger] is_step(edges, q, i) by {
        if i < path.len() - 1 {
            assert(is_step(edges, path, i));
        }
    }
}

/// Two chains that meet make one.
pub proof fn lemma_chain_join(
    edges: Seq<(Seq<char>, Seq<char>)>,
    p: Seq<Seq<char>>,
    q: Seq<Seq<char>>,
)
    requires
        is_chain(edges, p),
        is_chain(edges, q),
        p.last() == q[0],
    ensures
        is_chain(edges, p + q.skip(1)),
        (p + q.skip(1))[0] == p[0],
        (p + q.skip(1)).last() == q.last(),
{
    let r = p + q.skip(1);
    assert forall|i: int| 0 <= i < r.len() - 1 implies #[trigger] is_step(edges, r, i) by {
        if i < p.len() - 1 {
            assert(is_step(edges, p, i));
        } else {
            let j = i - (p.len() - 1);
            assert(is_step(edges, q, j));
            assert(r[i] == q[j]);
            assert(r[i + 1] == q[j + 1]);
        }
    }
    if q.len() > 1 {
        assert(r.last() == q.last());
    } else {
        assert(q.skip(1).len() == 0);
    }
}

/// What is inside something is inside what that is inside.
pub proof fn lemma_inside_transitive(
    edges: Seq<(Seq<char>, Seq<char>)>,
    a: Seq<char>,
    b: Seq<char>,
    c: Seq<char>,
)
    requires
        inside(edges, a, b),
        inside(edges, b, c),
    ensures
        inside(edges, a, c),
{
    let p = choose|p: Seq<Seq<char>>| leads(edges, p, a, b);
    let q = choose|q: Seq<Seq<char>>| leads(edges, q, b, c);
    lemma_chain_join(edges, p, q);
    assert(leads(edges, p + q.skip(1), a, c));
}

/// Every member is inside the group around it.
pub proof fn lemma_edge_is_inside(
    edges: Seq<(Seq<char>, Seq<char>)>,
    a: Seq<char>,
    b: Seq<char>,
)
    requires
        edges.contains((a, b)),
    ensures
        inside(edges, a, b),
{
    let p = seq![a].push(b);
    lemma_chain_push(edges, seq![a], b);
    assert(leads(edges, p, a, b));
}

/// More edges take no way away.
pub proof fn lemma_inside_monotone(
    fewer: Seq<(Seq<char>, Seq<char>)>,
    more: Seq<(Seq<char>, Seq<char>)>,
    a: Seq<char>,
    b: Seq<char>,
)
    requires
        inside(fewer, a, b),
        forall|e: (Seq<char>, Seq<char>)| fewer.contains(e) ==> more.contains(e),
    ensures
        inside(more, a, b),
{
    let p = choose|p: Seq<Seq<char>>| leads(fewer, p, a, b);
    assert forall|i: int| 0 <= i < p.len() - 1 implies #[trigger] is_step(more, p, i) by {
        assert(is_step(fewer, p, i));
    }
    assert(leads(more, p, a, b));
}

/// A way over one more edge either avoids that edge or reaches its lower end
/// and leaves its upper end by the old edges.
proof fn lemma_inside_with_edge(
    edges: Seq<(Seq<char>, Seq<char>)>,
    e: (Seq<char>, Seq<char>),
    path: Seq<Seq<char>>,
)
    requires
        is_chain(edges.push(e), path),
    ensures
        inside(edges, path[0], path.last()) || (inside(edges, path[0], e.0) && inside(
            edges,
            e.1,
            path.last(),
        )),
    decreases path.len(),
{
    let a = path[0];
    let b = path.last();
    if path.len() == 1 {
        lemma_inside_reflexive(edges, a);
    } else {
        let p = path.drop_last();
        let last = p.last();
        assert forall|i: int| 0 <= i < p.len() - 1 implies #[trigger] is_step(
            edges.push(e),
            p,
            i,
        ) by {
            assert(is_step(edges.push(e), path, i));
        }
        lemma_inside_with_edge(edges, e, p);
        assert(is_step(edges.push(e), path, path.len() - 2));
        let k = choose|k: int| 0 <= k < edges.push(e).len() && edges.push(e)[k] == (last, b);
        if k < edges.len() {
            assert(edges[k] == (last, b));
            lemma_edge_is_inside(edges, last, b);
            if inside(edges, a, last) {
                lemma_inside_transitive(edges, a, last, b);
            } else {
                lemma_inside_transitive(edges, e.1, last, b);
            }
        } else {
            assert(e == (last, b));
            lemma_inside_reflexive(edges, b);
        }
    }
}

/// Putting a group into another keeps the graph without cycles, unless the
/// outer group is inside the inner one already.
pub proof fn lemma_push_keeps_acyclic(
    edges: Seq<(Seq<char>, Seq<char>)>,
    member: Seq<char>,
    parent: Seq<char>,
)
    requires
        acyclic(edges),
        !inside(edges, parent, member),
    ensures
        acyclic(edges.push((member, parent))),
{
    let e = (member, parent);
    let more = edges.push(e);
    assert forall|i: int| 0 <= i < more.len() implies !inside(
        more,
        (#[trigger] more[i]).1,
        more[i].0,
    ) by {
        if inside(more, more[i].1, more[i].0) {
            let p = choose|p: Seq<Seq<char>>| leads(more, p, more[i].1, more[i].0);
            lemma_inside_with_edge(edges, e, p);
            if i < edges.len() {
                assert(more[i] == edges[i]);
                assert(!inside(edges, edges[i].1, edges[i].0));
                // The way goes over the new edge, so the old edge leads back.
                assert(edges.contains(edges[i]));
                lemma_edge_is_inside(edges, edges[i].0, edges[i].1);
                lemma_inside_transitive(edges, parent, edges[i].0, edges[i].1);
                lemma_inside_transitive(edges, parent, edges[i].1, member);
            } else {
                assert(!inside(edges, parent, member));
            }
        }
    }
}

/// Taking a group out of another keeps the graph without cycles.
pub proof fn lemma_remove_keeps_acyclic(edges: Seq<(Seq<char>, Seq<char>)>, at: int)
    requires
        acyclic(edges),
        0 <= at < edges.len(),
    ensures
        acyclic(edges.remove(at)),
{
    let fewer = edges.remove(at);
    assert forall|e: (Seq<char>, Seq<char>)| fewer.contains(e) implies edges.contains(e) by {
        let i = choose|i: int| 0 <= i < fewer.len() && fewer[i] == e;
        assert(edges[if i < at { i } else { i + 1 }] == e);
    }
    assert forall|i: int| 0 <= i < fewer.len() implies !inside(
        fewer,
        (#[trigger] fewer[i]).1,
        fewer[i].0,
    ) by {
        let j = if i < at { i } else { i + 1 };
        assert(edges[j] == fewer[i]);
        if inside(fewer, fewer[i].1, fewer[i].0) {
            lemma_inside_monotone(fewer, edges, fewer[i].1, fewer[i].0);
        }
    }
}

/// One group is inside another exactly if every set of groups that has the one in it, and
/// with each group also those around it, has the other in it: a group is inside itself,
/// inside what it is put into, and inside what those are inside, and inside no more.
pub proof fn law_inside_is_the_least_closure(
    edges: Seq<(Seq<char>, Seq<char>)>,
    a: Seq<char>,
    b: Seq<char>,
    closed: Set<Seq<char>>,
)
    ensures
        inside(edges, a, a),
        edges.contains((a, b)) ==> inside(edges, a, b),
        forall|c: Seq<char>| inside(edges, a, c) && #[trigger] inside(edges, c, b) ==> inside(
            edges,
            a,
            b,
        ),
        inside(edges, a, b) && closed.contains(a) && (forall|e: (Seq<char>, Seq<char>)| #[trigger]
            edges.contains(e) && closed.contains(e.0) ==> closed.contains(e.1)) ==> closed.contains(b),
{
    lemma_inside_reflexive(edges, a);
    if edges.contains((a, b)) {
        lemma_edge_is_inside(edges, a, b);
    }
    assert forall|c: Seq<char>| inside(edges, a, c) && #[trigger] inside(edges, c, b) implies inside(
        edges,
        a,
        b,
    ) by {
        lemma_inside_transitive(edges, a, c, b);
    }
    if inside(edges, a, b) && closed.contains(a) && (forall|e: (Seq<char>, Seq<char>)| #[trigger]
        edges.contains(e) && closed.contains(e.0) ==> closed.contains(e.1)) {
        let path = choose|path: Seq<Seq<char>>| leads(edges, path, a, b);
        lemma_chain_stays(edges, path, closed, path.len() - 1);
    }
}

proof fn lemma_chain_stays(
    edges: Seq<(Seq<char>, Seq<char>)>,
    path: Seq<Seq<char>>,
    closed: Set<Seq<char>>,
    i: int,
)
    requires
        is_chain(edges, path),
        closed.contains(path[0]),
        forall|e: (Seq<char>, Seq<char>)| #[trigger]
            edges.contains(e) && closed.contains(e.0) ==> closed.contains(e.1),
        0 <= i < path.len(),
    ensures
        closed.contains(path[i]),
    decreases i,
{
    if i > 0 {
        lemma_chain_stays(edges, path, closed, i - 1);
        assert(is_step(edges, path, i - 1));
        assert(edges.contains((path[i - 1], path[i])));
    }
}

/// A group is reached exactly if one of the groups to start from is inside it.
pub proof fn law_reached_from_one_of_them(
    edges: Seq<(Seq<char>, Seq<char>)>,
    direct: Seq<Seq<char>>,
    i: int,
    g: Seq<char>,
)
    requires
        0 <= i < direct.len(),
    ensures
        reached(edges, direct, direct[i]),
        inside(edges, direct[i], g) ==> reached(edges, direct, g),
        reached(edges, direct, g) ==> exists|j: int|
            0 <= j < direct.len() && inside(edges, #[trigger] direct[j], g),
        !reached(edges, Seq::empty(), g),
{
    assert(direct.contains(direct[i]));
    lemma_inside_reflexive(edges, direct[i]);
    if reached(edges, direct, g) {
        let d = choose|d: Seq<char>| direct.contains(d) && #[trigger] inside(edges, d, g);
        let j = choose|j: int| 0 <= j < direct.len() && direct[j] == d;
        assert(inside(edges, direct[j], g));
    }
}

} // verus!
