//! What the tables of the database hold, what the queries find in them, and what
//! holds of the tuples that are read, whatever the tables hold.

use vstd::prelude::*;

use crate::authz;
use crate::authz::laws;
use crate::authz::query;
use crate::authz::query::GrantRowView;
use crate::authz::snapshot;
use crate::authz::{TupleFilterView, TupleView};
use crate::nesting;
use crate::order;
use crate::roles;
use crate::text;

verus! {

/// What the tables hold, as far as authorization reads them.
#[verifier::ext_equal]
pub struct DatabaseView {
    /// The grants on repositories that are active, in the order in which they are
    /// read.
    pub grants: Seq<GrantRowView>,
    /// Groups and the users directly in them, in the order in which they are read.
    pub members: Seq<(Seq<char>, Seq<char>)>,
    /// Groups and the groups directly in them, in the order in which they are read.
    pub nestings: Seq<(Seq<char>, Seq<char>)>,
}

/// Whether one row of members comes before another: by the group, then by what is
/// in it.
pub open spec fn row_before(a: (Seq<char>, Seq<char>), b: (Seq<char>, Seq<char>)) -> bool {
    a != b && order::keys_le(seq![a.0, a.1], seq![b.0, b.1])
}

/// Whether rows of members are in order, each once.
pub open spec fn rows_in_order(v: Seq<(Seq<char>, Seq<char>)>) -> bool {
    forall|i: int, j: int| 0 <= i < j < v.len() ==> row_before(#[trigger] v[i], #[trigger] v[j])
}

/// Whether a row of members is of that member.
pub open spec fn has_member(member: Seq<char>) -> spec_fn((Seq<char>, Seq<char>)) -> bool {
    |row: (Seq<char>, Seq<char>)| row.1 == member
}

/// The filter that every tuple fits.
pub open spec fn anything() -> TupleFilterView {
    TupleFilterView {
        object_type: None,
        object_id: None,
        relation: None,
        subject_type: None,
        subject_id: None,
    }
}

impl DatabaseView {
    /// Every grant is of a role that there is, to a user or a group, on a repository
    /// with a proper identifier, and no group has a member twice.
    pub open spec fn wf(self) -> bool {
        &&& forall|i: int|
            0 <= i < self.grants.len() ==> laws::is_proper(#[trigger] self.grants[i])
                && roles::role_named(self.grants[i].role) is Some
        &&& rows_in_order(self.members)
        &&& rows_in_order(self.nestings)
    }

    /// Which groups are directly inside which.
    pub open spec fn edges(self) -> Seq<(Seq<char>, Seq<char>)> {
        Seq::new(self.nestings.len(), |i: int| (self.nestings[i].1, self.nestings[i].0))
    }

    /// The groups that a user is directly in.
    pub open spec fn direct(self, user: Seq<char>) -> Seq<Seq<char>> {
        let rows = self.rows_of_user(user);
        Seq::new(rows.len(), |i: int| rows[i].0)
    }

    /// Whether a user is in a group, directly or through other groups.
    pub open spec fn belongs(self, user: Seq<char>, group: Seq<char>) -> bool {
        nesting::reached(self.edges(), self.direct(user), group)
    }

    /// The rows that [`snapshot::USER_GROUPS_SQL`] finds.
    pub open spec fn rows_of_user(self, user: Seq<char>) -> Seq<(Seq<char>, Seq<char>)> {
        self.members.filter(has_member(user))
    }

    /// The rows that [`snapshot::USER_GROUP_NESTING_SQL`] finds.
    pub open spec fn rows_upward(self, user: Seq<char>) -> Seq<(Seq<char>, Seq<char>)> {
        self.nestings.filter(|row: (Seq<char>, Seq<char>)| self.belongs(user, row.1))
    }

    /// The grants that the query for a filter finds.
    pub open spec fn grants_found(self, f: TupleFilterView) -> Seq<GrantRowView> {
        match query::grant_clauses(f) {
            Some(clauses) => self.grants.filter(
                |row: GrantRowView| query::meets_all(row, clauses),
            ),
            None => Seq::empty(),
        }
    }

    /// The users in groups that the query for a filter finds.
    pub open spec fn users_found(self, f: TupleFilterView) -> Seq<(Seq<char>, Seq<char>)> {
        match query::user_clauses(f) {
            Some(c) => self.members.filter(
                |row: (Seq<char>, Seq<char>)| query::meets_member(row, c),
            ),
            None => Seq::empty(),
        }
    }

    /// The groups in groups that the query for a filter finds.
    pub open spec fn groups_found(self, f: TupleFilterView) -> Seq<(Seq<char>, Seq<char>)> {
        match query::nested_clauses(f) {
            Some(c) => self.nestings.filter(
                |row: (Seq<char>, Seq<char>)| query::meets_member(row, c),
            ),
            None => Seq::empty(),
        }
    }

    /// The tuples of grants that are read for a filter.
    pub open spec fn grant_tuples_read(self, f: TupleFilterView) -> Seq<TupleView> {
        snapshot::grant_tuples(granted(self.grants_found(f)))
    }

    /// The tuples that are read for a filter.
    pub open spec fn tuples_read(self, f: TupleFilterView) -> Seq<TupleView> {
        self.grant_tuples_read(f) + snapshot::member_tuples(
            self.users_found(f),
            self.groups_found(f),
        )
    }

    /// The tuples that are read of the groups of a user.
    pub open spec fn user_tuples(self, user: Seq<char>) -> Seq<TupleView> {
        snapshot::member_tuples(self.rows_of_user(user), self.rows_upward(user))
    }
}

/// Rows with a grant each.
pub open spec fn granted(rows: Seq<GrantRowView>) -> Seq<(Seq<char>, Option<GrantRowView>)> {
    Seq::new(rows.len(), |i: int| (rows[i].repository_id, Some(rows[i])))
}

// ---------------------------------------------------------------------------
// Filters of sequences
// ---------------------------------------------------------------------------

proof fn lemma_filter_then_map<A, B>(
    s: Seq<A>,
    f: spec_fn(A) -> B,
    p: spec_fn(A) -> bool,
    q: spec_fn(B) -> bool,
)
    requires
        forall|i: int| 0 <= i < s.len() ==> p(#[trigger] s[i]) == q(f(s[i])),
    ensures
        s.filter(p).map_values(f) == s.map_values(f).filter(q),
    decreases s.len(),
{
    reveal(Seq::filter);
    if s.len() > 0 {
        let front = s.drop_last();
        assert forall|i: int| 0 <= i < front.len() implies p(#[trigger] front[i]) == q(
            f(front[i]),
        ) by {
            assert(front[i] == s[i]);
        }
        lemma_filter_then_map(front, f, p, q);
        assert(s.map_values(f).drop_last() =~= front.map_values(f));
        assert(s[s.len() - 1] == s.last());
        assert(s.filter(p).map_values(f) =~= s.map_values(f).filter(q));
    } else {
        assert(s.filter(p).map_values(f) =~= s.map_values(f).filter(q));
    }
}

proof fn lemma_nothing_fits<B>(s: Seq<B>, q: spec_fn(B) -> bool)
    requires
        forall|i: int| 0 <= i < s.len() ==> !q(#[trigger] s[i]),
    ensures
        s.filter(q) == Seq::<B>::empty(),
    decreases s.len(),
{
    reveal(Seq::filter);
    if s.len() > 0 {
        let front = s.drop_last();
        assert forall|i: int| 0 <= i < front.len() implies !q(#[trigger] front[i]) by {
            assert(front[i] == s[i]);
        }
        lemma_nothing_fits(front, q);
        assert(!q(s[s.len() - 1]));
    }
}

proof fn lemma_everything_fits<B>(s: Seq<B>, q: spec_fn(B) -> bool)
    requires
        forall|i: int| 0 <= i < s.len() ==> q(#[trigger] s[i]),
    ensures
        s.filter(q) == s,
    decreases s.len(),
{
    reveal(Seq::filter);
    if s.len() > 0 {
        let front = s.drop_last();
        assert forall|i: int| 0 <= i < front.len() implies q(#[trigger] front[i]) by {
            assert(front[i] == s[i]);
        }
        lemma_everything_fits(front, q);
        assert(q(s[s.len() - 1]));
        assert(s.filter(q) =~= s);
    }
}

proof fn lemma_filter_stays_in_order(
    v: Seq<(Seq<char>, Seq<char>)>,
    p: spec_fn((Seq<char>, Seq<char>)) -> bool,
)
    requires
        rows_in_order(v),
    ensures
        rows_in_order(v.filter(p)),
    decreases v.len(),
{
    reveal(Seq::filter);
    if v.len() > 0 {
        let front = v.drop_last();
        assert forall|i: int, j: int| 0 <= i < j < front.len() implies row_before(
            #[trigger] front[i],
            #[trigger] front[j],
        ) by {
            assert(row_before(v[i], v[j]));
        }
        lemma_filter_stays_in_order(front, p);
        let r = v.filter(p);
        assert forall|i: int, j: int| 0 <= i < j < r.len() implies row_before(
            #[trigger] r[i],
            #[trigger] r[j],
        ) by {
            let before = front.filter(p);
            if j == before.len() {
                assert(before.contains(r[i])) by {
                    assert(before[i] == r[i]);
                }
                front.lemma_filter_contains_rev(p, r[i]);
                let k = choose|k: int| 0 <= k < front.len() && front[k] == r[i];
                assert(row_before(v[k], v[v.len() - 1]));
            } else {
                assert(row_before(before[i], before[j]));
            }
        }
    }
}

/// A filter keeps what passes, and nothing else.
pub proof fn lemma_filter_keeps<A>(s: Seq<A>, p: spec_fn(A) -> bool, x: A)
    ensures
        s.filter(p).contains(x) <==> s.contains(x) && p(x),
{
    if s.contains(x) && p(x) {
        let i = choose|i: int| 0 <= i < s.len() && s[i] == x;
        s.lemma_filter_contains(p, i);
    }
    if s.filter(p).contains(x) {
        s.lemma_filter_contains_rev(p, x);
        let i = choose|i: int| 0 <= i < s.filter(p).len() && s.filter(p)[i] == x;
        s.lemma_filter_pred(p, i);
    }
}

/// The tuples of rows with a grant each are the tuples of the grants.
pub proof fn lemma_tuples_of_grants(rows: Seq<GrantRowView>)
    ensures
        snapshot::grant_tuples(granted(rows)) == rows.map_values(
            |row: GrantRowView| snapshot::tuple_of_grant(row),
        ),
    decreases rows.len(),
{
    let tuples = rows.map_values(|row: GrantRowView| snapshot::tuple_of_grant(row));
    if rows.len() > 0 {
        lemma_tuples_of_grants(rows.drop_last());
        assert(granted(rows).drop_last() =~= granted(rows.drop_last()));
        assert(granted(rows).last() == (rows.last().repository_id, Some(rows.last())));
        assert(tuples =~= rows.drop_last().map_values(
            |row: GrantRowView| snapshot::tuple_of_grant(row),
        ).push(snapshot::tuple_of_grant(rows.last())));
    } else {
        assert(snapshot::grant_tuples(granted(rows)) =~= tuples);
    }
}

// ---------------------------------------------------------------------------
// Reading less
// ---------------------------------------------------------------------------

/// What is read of the grants for a filter is what is read without one, less what
/// does not fit, in the same order: it makes no difference that the filter is left
/// to the database. Without a filter there is one tuple for each grant.
pub proof fn law_grants_are_filtered_by_the_query(db: DatabaseView, f: TupleFilterView)
    requires
        db.wf(),
        f.object_id matches Some(id) ==> text::has_prefix(id, "urc-"@),
    ensures
        db.grant_tuples_read(anything()) == db.grants.map_values(
            |row: GrantRowView| snapshot::tuple_of_grant(row),
        ),
        db.grant_tuples_read(f) == authz::fitting(db.grant_tuples_read(anything()), f),
{
    let tuple = |row: GrantRowView| snapshot::tuple_of_grant(row);
    let q = |t: TupleView| authz::fits_filter(t, f);
    let all = query::grant_clauses(anything())->0;
    assert(all =~= Seq::empty());
    lemma_everything_fits(db.grants, |row: GrantRowView| query::meets_all(row, all));
    assert(db.grants_found(anything()) == db.grants);
    lemma_tuples_of_grants(db.grants);
    lemma_tuples_of_grants(db.grants_found(f));
    assert forall|i: int| 0 <= i < db.grants.len() implies (authz::fits_filter(
        snapshot::tuple_of_grant(#[trigger] db.grants[i]),
        f,
    ) <==> (query::grant_clauses(f) matches Some(c) && query::meets_all(db.grants[i], c))) by {
        laws::law_grant_query_finds_what_is_wanted(db.grants[i], f);
    }
    match query::grant_clauses(f) {
        Some(c) => {
            let p = |row: GrantRowView| query::meets_all(row, c);
            lemma_filter_then_map(db.grants, tuple, p, q);
        },
        None => {
            let tuples = db.grants.map_values(tuple);
            assert forall|i: int| 0 <= i < tuples.len() implies !q(#[trigger] tuples[i]) by {
                assert(tuples[i] == snapshot::tuple_of_grant(db.grants[i]));
            }
            lemma_nothing_fits(tuples, q);
            assert(db.grant_tuples_read(f) =~= Seq::empty());
        },
    }
}

proof fn lemma_members_are_filtered(db: DatabaseView, f: TupleFilterView)
    ensures
        snapshot::member_tuples(db.users_found(f), db.groups_found(f)) == authz::fitting(
            snapshot::member_tuples(db.members, db.nestings),
            f,
        ),
{
    let q = |t: TupleView| authz::fits_filter(t, f);
    let user_tuple = |row: (Seq<char>, Seq<char>)| snapshot::tuple_of_user(row);
    let group_tuple = |row: (Seq<char>, Seq<char>)| snapshot::tuple_of_group(row);
    let users = db.members.map_values(user_tuple);
    let groups = db.nestings.map_values(group_tuple);
    assert forall|row: (Seq<char>, Seq<char>)|
        authz::fits_filter(#[trigger] snapshot::tuple_of_user(row), f) <==> (query::user_clauses(
            f,
        ) matches Some(c) && query::meets_member(row, c)) by {
        laws::law_user_query_finds_what_is_wanted(row, f);
    }
    assert forall|row: (Seq<char>, Seq<char>)|
        authz::fits_filter(#[trigger] snapshot::tuple_of_group(row), f) <==> (
        query::nested_clauses(f) matches Some(c) && query::meets_member(row, c)) by {
        laws::law_nested_query_finds_what_is_wanted(row, f);
    }
    assert(db.users_found(f).map_values(user_tuple) == users.filter(q)) by {
        match query::user_clauses(f) {
            Some(c) => {
                let p = |row: (Seq<char>, Seq<char>)| query::meets_member(row, c);
                lemma_filter_then_map(db.members, user_tuple, p, q);
            },
            None => {
                assert forall|i: int| 0 <= i < users.len() implies !q(#[trigger] users[i]) by {
                    assert(users[i] == snapshot::tuple_of_user(db.members[i]));
                }
                lemma_nothing_fits(users, q);
                assert(db.users_found(f).map_values(user_tuple) =~= Seq::empty());
            },
        }
    }
    assert(db.groups_found(f).map_values(group_tuple) == groups.filter(q)) by {
        match query::nested_clauses(f) {
            Some(c) => {
                let p = |row: (Seq<char>, Seq<char>)| query::meets_member(row, c);
                lemma_filter_then_map(db.nestings, group_tuple, p, q);
            },
            None => {
                assert forall|i: int| 0 <= i < groups.len() implies !q(#[trigger] groups[i]) by {
                    assert(groups[i] == snapshot::tuple_of_group(db.nestings[i]));
                }
                lemma_nothing_fits(groups, q);
                assert(db.groups_found(f).map_values(group_tuple) =~= Seq::empty());
            },
        }
    }
    Seq::filter_distributes_over_add(users, groups, q);
    assert(snapshot::member_tuples(db.members, db.nestings) =~= users + groups);
    assert(snapshot::member_tuples(db.users_found(f), db.groups_found(f)) =~= db.users_found(
        f,
    ).map_values(user_tuple) + db.groups_found(f).map_values(group_tuple));
}

/// What is read for a filter is what is read without one, less what does not fit,
/// in the same order.
pub proof fn law_tuples_are_filtered_by_the_queries(db: DatabaseView, f: TupleFilterView)
    requires
        db.wf(),
        f.object_id matches Some(id) ==> text::has_prefix(id, "urc-"@),
    ensures
        db.tuples_read(f) == authz::fitting(db.tuples_read(anything()), f),
{
    law_grants_are_filtered_by_the_query(db, f);
    lemma_members_are_filtered(db, f);
    lemma_members_are_filtered(db, anything());
    let members = snapshot::member_tuples(db.members, db.nestings);
    lemma_everything_fits(members, |t: TupleView| authz::fits_filter(t, anything()));
    Seq::filter_distributes_over_add(
        db.grant_tuples_read(anything()),
        members,
        |t: TupleView| authz::fits_filter(t, f),
    );
}

// ---------------------------------------------------------------------------
// The groups of a user
// ---------------------------------------------------------------------------

/// Whether a set of groups holds every group around one of its own.
pub open spec fn is_closed_upward(edges: Seq<(Seq<char>, Seq<char>)>, s: Set<Seq<char>>) -> bool {
    forall|a: Seq<char>, b: Seq<char>| #[trigger]
        edges.contains((a, b)) && s.contains(a) ==> s.contains(b)
}

proof fn lemma_chain_stays_inside(
    edges: Seq<(Seq<char>, Seq<char>)>,
    s: Set<Seq<char>>,
    path: Seq<Seq<char>>,
    n: int,
)
    requires
        is_closed_upward(edges, s),
        nesting::is_chain(edges, path),
        s.contains(path[0]),
        0 <= n < path.len(),
    ensures
        s.contains(path[n]),
    decreases n,
{
    if n > 0 {
        lemma_chain_stays_inside(edges, s, path, n - 1);
        assert(nesting::is_step(edges, path, n - 1));
        assert(edges.contains((path[n - 1], path[n])));
    }
}

/// The groups that a user is in are the least set that holds the groups that the
/// user is directly in, and every group around one of its own.
pub proof fn law_groups_of_a_user_are_the_least_closure(
    db: DatabaseView,
    user: Seq<char>,
    s: Set<Seq<char>>,
)
    ensures
        forall|g: Seq<char>| #[trigger] db.direct(user).contains(g) ==> db.belongs(user, g),
        is_closed_upward(db.edges(), Set::new(|g: Seq<char>| db.belongs(user, g))),
        is_closed_upward(db.edges(), s) && (forall|g: Seq<char>| #[trigger]
            db.direct(user).contains(g) ==> s.contains(g)) ==> (forall|g: Seq<char>| #[trigger]
            db.belongs(user, g) ==> s.contains(g)),
{
    let edges = db.edges();
    let direct = db.direct(user);
    assert forall|g: Seq<char>| #[trigger] direct.contains(g) implies db.belongs(user, g) by {
        nesting::lemma_inside_reflexive(edges, g);
        assert(nesting::inside(edges, g, g));
    }
    let all = Set::new(|g: Seq<char>| db.belongs(user, g));
    assert forall|a: Seq<char>, b: Seq<char>| #[trigger] edges.contains((a, b)) && all.contains(
        a,
    ) implies all.contains(b) by {
        let d = choose|d: Seq<char>| direct.contains(d) && #[trigger] nesting::inside(edges, d, a);
        let path = choose|path: Seq<Seq<char>>| nesting::leads(edges, path, d, a);
        nesting::lemma_chain_push(edges, path, b);
        assert(nesting::leads(edges, path.push(b), d, b));
        assert(nesting::inside(edges, d, b));
    }
    if is_closed_upward(edges, s) && (forall|g: Seq<char>| #[trigger]
        direct.contains(g) ==> s.contains(g)) {
        assert forall|g: Seq<char>| #[trigger] db.belongs(user, g) implies s.contains(g) by {
            let d = choose|d: Seq<char>|
                direct.contains(d) && #[trigger] nesting::inside(edges, d, g);
            let path = choose|path: Seq<Seq<char>>| nesting::leads(edges, path, d, g);
            lemma_chain_stays_inside(edges, s, path, path.len() - 1);
        }
    }
}

/// What is read of the groups of a user: first a tuple for each group that the
/// user is directly in, then one for each nesting of a group that the user is in
/// at all, and for no other, each once and in order. By these tuples the user is in
/// the same groups as by all the tables hold.
pub proof fn law_user_tuples_say_which_groups_the_user_is_in(
    db: DatabaseView,
    user: Seq<char>,
)
    requires
        db.wf(),
    ensures
        db.user_tuples(user) == Seq::new(
            db.rows_of_user(user).len(),
            |i: int| snapshot::tuple_of_user(db.rows_of_user(user)[i]),
        ) + Seq::new(
            db.rows_upward(user).len(),
            |i: int| snapshot::tuple_of_group(db.rows_upward(user)[i]),
        ),
        rows_in_order(db.rows_of_user(user)),
        rows_in_order(db.rows_upward(user)),
        forall|row: (Seq<char>, Seq<char>)| #[trigger]
            db.rows_of_user(user).contains(row) <==> db.members.contains(row) && row.1 == user,
        forall|row: (Seq<char>, Seq<char>)| #[trigger]
            db.rows_upward(user).contains(row) <==> db.nestings.contains(row) && db.belongs(
                user,
                row.1,
            ),
        forall|g: Seq<char>| #[trigger]
            snapshot::reaches(db.user_tuples(user), user, g) <==> db.belongs(user, g),
{
    let of_user = has_member(user);
    let upward = |row: (Seq<char>, Seq<char>)| db.belongs(user, row.1);
    let users = db.rows_of_user(user);
    let groups = db.rows_upward(user);
    lemma_filter_stays_in_order(db.members, of_user);
    lemma_filter_stays_in_order(db.nestings, upward);
    assert forall|row: (Seq<char>, Seq<char>)| #[trigger] users.contains(row) <==> db.members.contains(
        row,
    ) && row.1 == user by {
        lemma_filter_keeps(db.members, of_user, row);
    }
    assert forall|row: (Seq<char>, Seq<char>)| #[trigger] groups.contains(row)
        <==> db.nestings.contains(row) && db.belongs(user, row.1) by {
        lemma_filter_keeps(db.nestings, upward, row);
    }
    assert forall|g: Seq<char>| #[trigger]
        snapshot::reaches(db.user_tuples(user), user, g) <==> db.belongs(user, g) by {
        assert forall|i: int| 0 <= i < users.len() implies (#[trigger] users[i]).1 == user by {
            db.members.lemma_filter_pred(of_user, i);
        }
        laws::law_member_tuples_say_what_the_rows_say(users, groups, user, g);
        laws::law_upward_nestings_are_enough(db.edges(), db.direct(user), g);
        let swapped = |row: (Seq<char>, Seq<char>)| (row.1, row.0);
        let wanted = |e: (Seq<char>, Seq<char>)|
            nesting::reached(db.edges(), db.direct(user), e.0);
        lemma_filter_then_map(db.nestings, swapped, upward, wanted);
        assert(db.nestings.map_values(swapped) =~= db.edges());
        assert(Seq::new(groups.len(), |i: int| (groups[i].1, groups[i].0)) =~= groups.map_values(
            swapped,
        ));
        assert(laws::upward(db.edges(), db.direct(user)) == groups.map_values(swapped));
        assert(db.direct(user) =~= Seq::new(users.len(), |i: int| users[i].0));
    }
}

} // verus!
