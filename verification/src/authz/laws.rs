//! What holds of the tuples as a whole.

use vstd::prelude::*;

use crate::authz;
use crate::authz::database;
use crate::authz::query;
use crate::authz::query::{GrantClauseView, GrantRowView};
use crate::authz::snapshot;
use crate::authz::{TupleFilterView, TupleView};
use crate::nesting;
use crate::resource_id;
use crate::text;

verus! {

/// A suffix comes off what it was put behind, and off nothing else.
pub proof fn lemma_suffix(s: Seq<char>, raw: Seq<char>, p: Seq<char>)
    ensures
        raw + p == s <==> text::without_suffix(s, p) == Some(raw),
{
    if raw + p == s {
        assert(s.skip(raw.len() as int) =~= p);
        assert(s.take(raw.len() as int) =~= raw);
        assert(s.subrange(s.len() - p.len(), s.len() as int) =~= p);
        assert(s.subrange(0, s.len() - p.len()) =~= raw);
    }
    if text::without_suffix(s, p) == Some(raw) {
        assert(raw + p =~= s);
    }
}

/// Whether a row of the grants is one that the rules of the store allow: on a
/// repository with a proper identifier, to a user or a group.
pub open spec fn is_proper(row: GrantRowView) -> bool {
    &&& resource_id::is_repository_id(row.repository_id)
    &&& !text::has_prefix(row.repository_id, "urc-"@)
    &&& row.subject_type == "user"@ || row.subject_type == "group"@
}

/// The query for grants finds exactly the rows whose tuples are wanted.
pub proof fn law_grant_query_finds_what_is_wanted(row: GrantRowView, f: TupleFilterView)
    requires
        is_proper(row),
        f.object_id matches Some(id) ==> text::has_prefix(id, "urc-"@),
    ensures
        authz::fits_filter(snapshot::tuple_of_grant(row), f) <==> (query::grant_clauses(
            f,
        ) matches Some(clauses) && query::meets_all(row, clauses)),
{
    reveal_strlit("user");
    reveal_strlit("group");
    assert("user"@.len() != "group"@.len());
    let t = snapshot::tuple_of_grant(row);
    resource_id::law_resource_stands_for_its_repository(row.repository_id);
    let on = query::object_clauses(f);
    assert((authz::fits(t.object_id, f.object_id) && authz::fits(t.relation, f.relation))
        <==> query::meets_all(row, on)) by {
        if let Some(id) = f.object_id {
            let rest = text::without_prefix(id, "urc-"@)->0;
            assert("urc-"@ + rest =~= id);
            assert(on[0] == GrantClauseView::Repository(resource_id::repository_of(id)));
            if t.object_id == id {
                assert(resource_id::repository_of(id) == row.repository_id);
            }
            if let Some(role) = f.relation {
                assert(on[1] == GrantClauseView::Role(role));
            }
        } else if let Some(role) = f.relation {
            assert(on[0] == GrantClauseView::Role(role));
        }
    }
    let subject_fits = authz::fits(t.subject_type, f.subject_type) && authz::fits(
        t.subject_id,
        f.subject_id,
    );
    assert(subject_fits <==> (query::subject_clauses(f) matches Some(more) && query::meets_all(
        row,
        more,
    ))) by {
        if let Some(id) = f.subject_id {
            lemma_suffix(id, row.subject_id, "#member"@);
        }
        if let Some(more) = query::subject_clauses(f) {
            if more.len() > 0 {
                assert(query::meets_all(row, more) ==> query::meets(row, more[0]));
            }
            if more.len() > 1 {
                assert(query::meets_all(row, more) ==> query::meets(row, more[1]));
            }
        }
    }
    if let Some(more) = query::subject_clauses(f) {
        let all = on + more;
        assert(query::meets_all(row, all) <==> query::meets_all(row, on) && query::meets_all(
            row,
            more,
        )) by {
            if query::meets_all(row, all) {
                assert forall|i: int| 0 <= i < on.len() implies query::meets(
                    row,
                    #[trigger] on[i],
                ) by {
                    assert(all[i] == on[i]);
                }
                assert forall|i: int| 0 <= i < more.len() implies query::meets(
                    row,
                    #[trigger] more[i],
                ) by {
                    assert(all[on.len() + i] == more[i]);
                }
            }
        }
    }
}

/// The query for users in groups finds exactly the rows whose tuples are wanted.
pub proof fn law_user_query_finds_what_is_wanted(row: (Seq<char>, Seq<char>), f: TupleFilterView)
    ensures
        authz::fits_filter(snapshot::tuple_of_user(row), f) <==> (query::user_clauses(
            f,
        ) matches Some(c) && query::meets_member(row, c)),
{
}

/// The query for groups in groups finds exactly the rows whose tuples are wanted.
pub proof fn law_nested_query_finds_what_is_wanted(
    row: (Seq<char>, Seq<char>),
    f: TupleFilterView,
)
    ensures
        authz::fits_filter(snapshot::tuple_of_group(row), f) <==> (query::nested_clauses(
            f,
        ) matches Some(c) && query::meets_member(row, c)),
{
    if let Some(id) = f.subject_id {
        lemma_suffix(id, row.1, "#member"@);
    }
}

/// Nestings of groups that the user is in, directly or through other groups.
pub open spec fn upward(
    edges: Seq<(Seq<char>, Seq<char>)>,
    direct: Seq<Seq<char>>,
) -> Seq<(Seq<char>, Seq<char>)> {
    edges.filter(|e: (Seq<char>, Seq<char>)| nesting::reached(edges, direct, e.0))
}

proof fn lemma_chain_goes_upward(
    edges: Seq<(Seq<char>, Seq<char>)>,
    direct: Seq<Seq<char>>,
    path: Seq<Seq<char>>,
)
    requires
        nesting::is_chain(edges, path),
        direct.contains(path[0]),
    ensures
        nesting::is_chain(upward(edges, direct), path),
        nesting::reached(edges, direct, path.last()),
    decreases path.len(),
{
    let up = upward(edges, direct);
    assert(nesting::leads(edges, path, path[0], path.last()));
    assert(nesting::inside(edges, path[0], path.last()));
    assert forall|i: int| 0 <= i < path.len() - 1 implies #[trigger] nesting::is_step(
        up,
        path,
        i,
    ) by {
        assert(nesting::is_step(edges, path, i));
        let e = (path[i], path[i + 1]);
        let lower = path.take(i + 1);
        assert forall|j: int| 0 <= j < lower.len() - 1 implies #[trigger] nesting::is_step(
            edges,
            lower,
            j,
        ) by {
            assert(nesting::is_step(edges, path, j));
        }
        assert(nesting::leads(edges, lower, path[0], path[i]));
        assert(nesting::inside(edges, path[0], path[i]));
        assert(nesting::reached(edges, direct, e.0));
        let wanted = |e: (Seq<char>, Seq<char>)| nesting::reached(edges, direct, e.0);
        let at = choose|at: int| 0 <= at < edges.len() && edges[at] == e;
        assert(wanted(edges[at]));
        edges.lemma_filter_contains(wanted, at);
        assert(up.contains(e));
    }
}

/// To know which groups a user is in it is enough to know the groups that the
/// user is directly in and the nestings of groups that the user is in at all:
/// every other nesting can be left out.
pub proof fn law_upward_nestings_are_enough(
    edges: Seq<(Seq<char>, Seq<char>)>,
    direct: Seq<Seq<char>>,
    group: Seq<char>,
)
    ensures
        nesting::reached(upward(edges, direct), direct, group) <==> nesting::reached(
            edges,
            direct,
            group,
        ),
{
    let up = upward(edges, direct);
    let wanted = |e: (Seq<char>, Seq<char>)| nesting::reached(edges, direct, e.0);
    if nesting::reached(up, direct, group) {
        let d = choose|d: Seq<char>| direct.contains(d) && #[trigger] nesting::inside(up, d, group);
        assert forall|e: (Seq<char>, Seq<char>)| up.contains(e) implies edges.contains(e) by {
            edges.lemma_filter_contains_rev(wanted, e);
        }
        nesting::lemma_inside_monotone(up, edges, d, group);
    }
    if nesting::reached(edges, direct, group) {
        let d = choose|d: Seq<char>|
            direct.contains(d) && #[trigger] nesting::inside(edges, d, group);
        let path = choose|path: Seq<Seq<char>>| nesting::leads(edges, path, d, group);
        lemma_chain_goes_upward(edges, direct, path);
        assert(nesting::leads(up, path, d, group));
        assert(nesting::inside(up, d, group));
    }
}

/// The tuples of rows say which groups the user is directly in and which groups
/// are inside which, as the rows do.
pub proof fn law_member_tuples_say_what_the_rows_say(
    users: Seq<(Seq<char>, Seq<char>)>,
    groups: Seq<(Seq<char>, Seq<char>)>,
    user: Seq<char>,
    group: Seq<char>,
)
    requires
        forall|i: int| 0 <= i < users.len() ==> (#[trigger] users[i]).1 == user,
    ensures
        snapshot::reaches(snapshot::member_tuples(users, groups), user, group)
            <==> nesting::reached(
            Seq::new(groups.len(), |i: int| (groups[i].1, groups[i].0)),
            Seq::new(users.len(), |i: int| users[i].0),
            group,
        ),
{
    let first = Seq::new(users.len(), |i: int| snapshot::tuple_of_user(users[i]));
    lemma_user_tuples(users, user);
    lemma_group_tuples(first, groups, user);
    assert(snapshot::nestings_in(first) + Seq::new(
        groups.len(),
        |i: int| (groups[i].1, groups[i].0),
    ) =~= Seq::new(groups.len(), |i: int| (groups[i].1, groups[i].0)));
}

proof fn lemma_user_tuples(users: Seq<(Seq<char>, Seq<char>)>, user: Seq<char>)
    requires
        forall|i: int| 0 <= i < users.len() ==> (#[trigger] users[i]).1 == user,
    ensures
        ({
            let tuples = Seq::new(users.len(), |i: int| snapshot::tuple_of_user(users[i]));
            &&& snapshot::groups_in(tuples, user) == Seq::new(users.len(), |i: int| users[i].0)
            &&& snapshot::nestings_in(tuples) == Seq::<(Seq<char>, Seq<char>)>::empty()
        }),
    decreases users.len(),
{
    reveal_strlit("user");
    reveal_strlit("group");
    assert("user"@.len() != "group"@.len());
    let tuples = Seq::new(users.len(), |i: int| snapshot::tuple_of_user(users[i]));
    if users.len() > 0 {
        let front = users.drop_last();
        assert forall|i: int| 0 <= i < front.len() implies (#[trigger] front[i]).1 == user by {
            assert(users[i].1 == user);
        }
        lemma_user_tuples(front, user);
        assert(tuples.drop_last() =~= Seq::new(
            front.len(),
            |i: int| snapshot::tuple_of_user(front[i]),
        ));
        assert(users[users.len() - 1].1 == user);
        assert(tuples.last() == snapshot::tuple_of_user((users.last().0, user)));
        assert(snapshot::groups_in(tuples, user) =~= Seq::new(users.len(), |i: int| users[i].0));
    } else {
        assert(snapshot::groups_in(tuples, user) =~= Seq::new(users.len(), |i: int| users[i].0));
        assert(snapshot::nestings_in(tuples) =~= Seq::<(Seq<char>, Seq<char>)>::empty());
    }
}

proof fn lemma_group_tuples(
    first: Seq<TupleView>,
    groups: Seq<(Seq<char>, Seq<char>)>,
    user: Seq<char>,
)
    ensures
        ({
            let tuples = first + Seq::new(
                groups.len(),
                |i: int| snapshot::tuple_of_group(groups[i]),
            );
            &&& snapshot::groups_in(tuples, user) == snapshot::groups_in(first, user)
            &&& snapshot::nestings_in(tuples) == snapshot::nestings_in(first) + Seq::new(
                groups.len(),
                |i: int| (groups[i].1, groups[i].0),
            )
        }),
    decreases groups.len(),
{
    reveal_strlit("user");
    reveal_strlit("group");
    assert("user"@.len() != "group"@.len());
    let added = Seq::new(groups.len(), |i: int| snapshot::tuple_of_group(groups[i]));
    let tuples = first + added;
    let edges = Seq::new(groups.len(), |i: int| (groups[i].1, groups[i].0));
    if groups.len() > 0 {
        let front = groups.drop_last();
        lemma_group_tuples(first, front, user);
        let fewer = first + Seq::new(front.len(), |i: int| snapshot::tuple_of_group(front[i]));
        assert(tuples.drop_last() =~= fewer);
        let t = snapshot::tuple_of_group(groups.last());
        assert(tuples.last() == t);
        lemma_suffix(t.subject_id, groups.last().1, "#member"@);
        assert(snapshot::nesting_of(t) == Some((groups.last().1, groups.last().0)));
        assert(snapshot::group_of(t, user) is None);
        assert(snapshot::nestings_in(first) + edges =~= (snapshot::nestings_in(first) + Seq::new(
            front.len(),
            |i: int| (front[i].1, front[i].0),
        )).push((groups.last().1, groups.last().0)));
    } else {
        assert(tuples =~= first);
        assert(snapshot::nestings_in(first) + edges =~= snapshot::nestings_in(first));
    }
}

/// A tuple fits a filter exactly if it agrees with each part that the filter names.
pub proof fn law_filter_names_what_is_wanted(t: TupleView, f: TupleFilterView)
    ensures
        authz::fits_filter(t, f) <==> {
            &&& f.object_type is None || f.object_type == Some(t.object_type)
            &&& f.object_id is None || f.object_id == Some(t.object_id)
            &&& f.relation is None || f.relation == Some(t.relation)
            &&& f.subject_type is None || f.subject_type == Some(t.subject_type)
            &&& f.subject_id is None || f.subject_id == Some(t.subject_id)
        },
{
}

/// The tuples that a filter lets through are those that fit it, and a filter for one
/// tuple lets only that one through.
pub proof fn law_filtered_tuples_are_those_that_fit(
    v: Seq<TupleView>,
    f: TupleFilterView,
    t: TupleView,
    one: TupleView,
)
    ensures
        authz::fitting(v, f).contains(t) <==> v.contains(t) && authz::fits_filter(t, f),
        authz::fits_filter(
            t,
            authz::exactly(
                one.object_type,
                one.object_id,
                one.relation,
                one.subject_type,
                one.subject_id,
            ),
        ) <==> t == one,
        authz::fits_filter(
            t,
            authz::groups_of_object(one.object_type, one.object_id, one.relation),
        ) <==> t.object_type == one.object_type && t.object_id == one.object_id && t.relation
            == one.relation && t.subject_type == "group"@,
        authz::fits_filter(t, authz::of_subject(one.subject_type, one.subject_id))
            <==> t.subject_type == one.subject_type && t.subject_id == one.subject_id,
{
    database::lemma_filter_keeps(v, |t: TupleView| authz::fits_filter(t, f), t);
}

/// Of some relations, the tuple that is found is one of them between the object and the
/// subject; none is found exactly if no tuple says any of them.
pub proof fn law_first_relation_that_is_said(
    v: Seq<TupleView>,
    object_type: Seq<char>,
    object_id: Seq<char>,
    relations: Seq<Seq<char>>,
    subject_type: Seq<char>,
    subject_id: Seq<char>,
)
    ensures
        authz::first_in_relations(
            v,
            object_type,
            object_id,
            relations,
            subject_type,
            subject_id,
        ) matches Some(t) ==> {
            &&& v.contains(t)
            &&& t.object_type == object_type
            &&& t.object_id == object_id
            &&& t.subject_type == subject_type
            &&& t.subject_id == subject_id
            &&& relations.contains(t.relation)
        },
        authz::first_in_relations(
            v,
            object_type,
            object_id,
            relations,
            subject_type,
            subject_id,
        ) is None <==> forall|i: int|
            0 <= i < relations.len() ==> !v.contains(
                (TupleView {
                    object_type,
                    object_id,
                    relation: #[trigger] relations[i],
                    subject_type,
                    subject_id,
                }),
            ),
    decreases relations.len(),
{
    if relations.len() > 0 {
        let f = authz::exactly(object_type, object_id, relations[0], subject_type, subject_id);
        let t = TupleView {
            object_type,
            object_id,
            relation: relations[0],
            subject_type,
            subject_id,
        };
        let found = authz::fitting(v, f);
        let rest = relations.skip(1);
        law_filtered_tuples_are_those_that_fit(v, f, t, t);
        law_first_relation_that_is_said(v, object_type, object_id, rest, subject_type, subject_id);
        assert forall|i: int| 0 <= i < rest.len() implies #[trigger] rest[i] == relations[i + 1] by {}
        assert forall|i: int| 0 < i < relations.len() implies #[trigger] relations[i] == rest[i
            - 1] by {}
        if found.len() > 0 {
            let first = found[0];
            assert(found.contains(first));
            law_filtered_tuples_are_those_that_fit(v, f, first, t);
            assert(first == t);
            assert(relations.contains(relations[0]));
        } else {
            assert(!found.contains(t));
            if let Some(u) = authz::first_in_relations(
                v,
                object_type,
                object_id,
                rest,
                subject_type,
                subject_id,
            ) {
                let i = choose|i: int| 0 <= i < rest.len() && rest[i] == u.relation;
                assert(relations[i + 1] == u.relation);
            }
            assert(!v.contains(t));
            assert forall|i: int|
                authz::first_in_relations(
                    v,
                    object_type,
                    object_id,
                    rest,
                    subject_type,
                    subject_id,
                ) is None && 0 <= i < relations.len() implies !v.contains(
                (TupleView {
                    object_type,
                    object_id,
                    relation: #[trigger] relations[i],
                    subject_type,
                    subject_id,
                }),
            ) by {
                if i > 0 {
                    assert(rest[i - 1] == relations[i]);
                }
            }
            if authz::first_in_relations(
                v,
                object_type,
                object_id,
                rest,
                subject_type,
                subject_id,
            ) is Some {
                let i = choose|i: int|
                    0 <= i < rest.len() && v.contains(
                        (TupleView {
                            object_type,
                            object_id,
                            relation: #[trigger] rest[i],
                            subject_type,
                            subject_id,
                        }),
                    );
                assert(relations[i + 1] == rest[i]);
            }
        }
    }
}

/// The values of a query follow its clauses, each clause with those that it names.
pub proof fn law_values_follow_the_clauses(
    v: Seq<GrantClauseView>,
    a: Seq<char>,
    b: Seq<char>,
    kind: query::SubjectKind,
)
    ensures
        query::grant_values(Seq::empty()).len() == 0,
        query::grant_values(v.push(GrantClauseView::Repository(a))) == query::grant_values(v).push(
            a,
        ),
        query::grant_values(v.push(GrantClauseView::Role(a))) == query::grant_values(v).push(a),
        query::grant_values(v.push(GrantClauseView::Kind(kind))) == query::grant_values(v),
        query::grant_values(v.push(GrantClauseView::Subject(a))) == query::grant_values(v).push(a),
        query::grant_values(v.push(GrantClauseView::GroupOrUser(a, b))) == query::grant_values(
            v,
        ).push(a).push(b),
{
    let values = query::grant_values(v);
    assert(v.push(GrantClauseView::Repository(a)).drop_last() =~= v);
    assert(v.push(GrantClauseView::Role(a)).drop_last() =~= v);
    assert(v.push(GrantClauseView::Kind(kind)).drop_last() =~= v);
    assert(v.push(GrantClauseView::Subject(a)).drop_last() =~= v);
    assert(v.push(GrantClauseView::GroupOrUser(a, b)).drop_last() =~= v);
    assert(values + seq![a] =~= values.push(a));
    assert(values + seq![a, b] =~= values.push(a).push(b));
    assert(values + Seq::<Seq<char>>::empty() =~= values);
}

/// The values of a query on members are the group and the member, as far as they are
/// named, in that order.
pub proof fn law_member_values(group: Seq<char>, member: Seq<char>)
    ensures
        query::member_values(
            (query::MemberClausesView { group: Some(group), member: Some(member) }),
        ) == seq![group, member],
        query::member_values((query::MemberClausesView { group: Some(group), member: None }))
            == seq![group],
        query::member_values((query::MemberClausesView { group: None, member: Some(member) }))
            == seq![member],
        query::member_values((query::MemberClausesView { group: None, member: None })).len() == 0,
{
    assert(seq![group].push(member) =~= seq![group, member]);
    assert(Seq::<Seq<char>>::empty().push(member) =~= seq![member]);
}

/// The places for values are numbered from one on, and each resource is asked about by
/// its repository.
pub proof fn law_places_are_numbered(n: nat, ids: Seq<Seq<char>>, i: int, rest: Seq<char>)
    requires
        0 <= i < n,
        i < ids.len(),
    ensures
        query::placeholders(n).len() == n,
        query::placeholders(n)[i] == "?"@ + text::decimal((i + 1) as nat),
        query::repositories_of(ids).len() == ids.len(),
        ids[i] == "urc-"@ + rest ==> query::repositories_of(ids)[i] == rest,
        !text::has_prefix(ids[i], "urc-"@) ==> query::repositories_of(ids)[i] == ids[i],
{
    text::law_prefix_and_rest(ids[i], "urc-"@, rest);
}

} // verus!
