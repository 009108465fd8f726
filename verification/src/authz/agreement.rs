//! Listing what a user may do, and asking whether the user may do it, agree.

use vstd::prelude::*;

use crate::authz::checks;
use crate::authz::checks::CheckOutcome;
use crate::authz::database;
use crate::authz::database::DatabaseView;
use crate::authz::gather;
use crate::authz::laws;
use crate::authz::query;
use crate::authz::query::GrantRowView;
use crate::authz::snapshot;
use crate::authz::TupleView;
use crate::error::CoreErrorView;
use crate::model::ResourcePermissionView;
use crate::order;
use crate::permissions;
use crate::resource_id;
use crate::roles;
use crate::roles::Permission;
use crate::text;

verus! {

/// Whether a tuple puts a user in a relation to a resource, where group membership
/// is by `v`.
pub open spec fn gives(
    t: TupleView,
    v: Seq<TupleView>,
    resource: Seq<char>,
    relation: Seq<char>,
    user: Seq<char>,
) -> bool {
    t.object_id == resource && snapshot::role_of(t, v, user) == Some(relation)
}

/// Whether tuples put a user in a relation to a resource: what the engine answers,
/// by the relations that there are.
pub open spec fn related(
    v: Seq<TupleView>,
    resource: Seq<char>,
    relation: Seq<char>,
    user: Seq<char>,
) -> bool {
    exists|i: int| 0 <= i < v.len() && gives(#[trigger] v[i], v, resource, relation, user)
}

/// Whether a grant is on one of some repositories.
pub open spec fn is_on(repositories: Seq<Seq<char>>) -> spec_fn(GrantRowView) -> bool {
    |row: GrantRowView| repositories.contains(row.repository_id)
}

impl DatabaseView {
    /// Whether a grant reaches a user.
    pub open spec fn is_held(self, user: Seq<char>, row: GrantRowView) -> bool {
        ||| row.subject_type == "user"@ && row.subject_id == user
        ||| row.subject_type == "group"@ && self.belongs(user, row.subject_id)
    }

    /// Whether a grant gives a user a role on a resource.
    pub open spec fn is_grant_of(
        self,
        user: Seq<char>,
        resource: Seq<char>,
        role: Seq<char>,
        row: GrantRowView,
    ) -> bool {
        &&& self.is_held(user, row)
        &&& gather::resource_or_empty(row.repository_id) == resource
        &&& row.role == role
    }

    /// Whether a user has a role on a resource.
    pub open spec fn holds(self, user: Seq<char>, resource: Seq<char>, role: Seq<char>) -> bool {
        exists|i: int|
            0 <= i < self.grants.len() && self.is_grant_of(
                user,
                resource,
                role,
                #[trigger] self.grants[i],
            )
    }

    /// The tuples of the grants on some repositories and of the groups of a user.
    pub open spec fn tuples_on(self, repositories: Seq<Seq<char>>, user: Seq<char>) -> Seq<
        TupleView,
    > {
        snapshot::grant_tuples(database::granted(self.grants.filter(is_on(repositories))))
            + self.user_tuples(user)
    }

    /// The answers to the checks for an action on a resource, by the tuples that are
    /// read for it.
    pub open spec fn access_outcomes(
        self,
        user: Seq<char>,
        resource: Seq<char>,
        action: Seq<char>,
    ) -> Seq<CheckOutcome> {
        let tuples = self.tuples_on(seq![resource_id::repository_of(resource)], user);
        checks::relations_for(action).map_values(
            |relation: Seq<char>| checks::plain(related(tuples, resource, relation, user)),
        )
    }

    /// Whether a user may do something with a resource.
    pub open spec fn may(self, user: Seq<char>, resource: Seq<char>, action: Seq<char>) -> Result<
        bool,
        CoreErrorView,
    > {
        checks::any_holds(self.access_outcomes(user, resource, action))
    }

    /// The answers to all the checks for the permissions on one of some resources, by
    /// the tuples that are read for them.
    pub open spec fn permission_outcomes(
        self,
        ids: Seq<Seq<char>>,
        user: Seq<char>,
        resource: Seq<char>,
    ) -> Seq<CheckOutcome> {
        let tuples = self.tuples_on(query::repositories_of(ids), user);
        seq![
            checks::plain(related(tuples, resource, "admin"@, user)),
            checks::plain(related(tuples, resource, "reader"@, user)),
            checks::plain(related(tuples, resource, "writer"@, user)),
        ]
    }

    /// Whether the checks for the permissions on one of some resources, made in turn,
    /// come to that.
    pub open spec fn is_answer(
        self,
        ids: Seq<Seq<char>>,
        user: Seq<char>,
        resource: Seq<char>,
        answer: Seq<Permission>,
    ) -> bool {
        exists|n: int|
            0 <= n <= 3 && #[trigger] checks::permission_step(
                self.permission_outcomes(ids, user, resource).take(n),
            ) == Err::<Seq<char>, Result<Seq<Permission>, CoreErrorView>>(Ok(answer))
    }

    /// Whether rows are the repositories and roles that a user has, in any order.
    pub open spec fn are_roles_of(
        self,
        user: Seq<char>,
        rows: Seq<(Seq<char>, Seq<char>)>,
    ) -> bool {
        &&& forall|i: int|
            0 <= i < rows.len() ==> exists|k: int|
                {
                    &&& 0 <= k < self.grants.len()
                    &&& self.is_held(user, #[trigger] self.grants[k])
                    &&& (#[trigger] rows[i]) == (self.grants[k].repository_id, self.grants[k].role)
                }
        &&& forall|k: int|
            0 <= k < self.grants.len() && self.is_held(user, #[trigger] self.grants[k])
                ==> rows.contains((self.grants[k].repository_id, self.grants[k].role))
    }
}

/// The entries of a list, one for each resource on which something is permitted.
pub open spec fn listing(
    ids: Seq<Seq<char>>,
    permitted: spec_fn(Seq<char>) -> Seq<Permission>,
) -> Seq<ResourcePermissionView>
    decreases ids.len(),
{
    if ids.len() == 0 {
        Seq::empty()
    } else {
        let before = listing(ids.drop_last(), permitted);
        let permission = permitted(ids.last());
        if permission.len() > 0 {
            before.push(ResourcePermissionView { resource_id: ids.last(), permission })
        } else {
            before
        }
    }
}

// ---------------------------------------------------------------------------
// The engine's answers
// ---------------------------------------------------------------------------

proof fn lemma_memberships_add(a: Seq<TupleView>, b: Seq<TupleView>, user: Seq<char>)
    ensures
        snapshot::groups_in(a + b, user) == snapshot::groups_in(a, user) + snapshot::groups_in(
            b,
            user,
        ),
        snapshot::nestings_in(a + b) == snapshot::nestings_in(a) + snapshot::nestings_in(b),
    decreases b.len(),
{
    if b.len() > 0 {
        lemma_memberships_add(a, b.drop_last(), user);
        assert((a + b).drop_last() =~= a + b.drop_last());
        assert((a + b).last() == b.last());
    } else {
        assert(a + b =~= a);
    }
    assert(snapshot::groups_in(a + b, user) =~= snapshot::groups_in(a, user) + snapshot::groups_in(
        b,
        user,
    ));
    assert(snapshot::nestings_in(a + b) =~= snapshot::nestings_in(a) + snapshot::nestings_in(b));
}

proof fn lemma_grants_are_no_memberships(rows: Seq<GrantRowView>, user: Seq<char>)
    ensures
        ({
            let tuples = snapshot::grant_tuples(database::granted(rows));
            &&& snapshot::groups_in(tuples, user) == Seq::<Seq<char>>::empty()
            &&& snapshot::nestings_in(tuples) == Seq::<(Seq<char>, Seq<char>)>::empty()
        }),
    decreases rows.len(),
{
    reveal_strlit("resource");
    reveal_strlit("group");
    assert("resource"@.len() != "group"@.len());
    if rows.len() > 0 {
        lemma_grants_are_no_memberships(rows.drop_last(), user);
        let all = database::granted(rows);
        assert(all.drop_last() =~= database::granted(rows.drop_last()));
        let t = snapshot::tuple_of_grant(rows.last());
        let tuples = snapshot::grant_tuples(all);
        assert(tuples.last() == t);
        assert(tuples.drop_last() =~= snapshot::grant_tuples(all.drop_last()));
        assert(t.object_type == "resource"@);
        assert(snapshot::tuple_of_user((t.object_id, user)).object_type == "group"@);
    }
}

/// What the tuples of some grants say with those of the user's groups is what the
/// grants say.
proof fn lemma_related_by_grants(
    db: DatabaseView,
    rows: Seq<GrantRowView>,
    user: Seq<char>,
    resource: Seq<char>,
    relation: Seq<char>,
)
    requires
        db.wf(),
    ensures
        related(
            snapshot::grant_tuples(database::granted(rows)) + db.user_tuples(user),
            resource,
            relation,
            user,
        ) <==> exists|i: int|
            0 <= i < rows.len() && db.is_grant_of(user, resource, relation, #[trigger] rows[i]),
{
    reveal_strlit("resource");
    reveal_strlit("group");
    reveal_strlit("user");
    assert("resource"@.len() != "group"@.len());
    assert("user"@.len() != "group"@.len());
    let grants = snapshot::grant_tuples(database::granted(rows));
    let groups = db.user_tuples(user);
    let v = grants + groups;
    lemma_memberships_add(grants, groups, user);
    lemma_grants_are_no_memberships(rows, user);
    assert(snapshot::groups_in(v, user) =~= snapshot::groups_in(groups, user));
    assert(snapshot::nestings_in(v) =~= snapshot::nestings_in(groups));
    database::law_user_tuples_say_which_groups_the_user_is_in(db, user);
    assert forall|g: Seq<char>| #[trigger]
        snapshot::reaches(v, user, g) <==> db.belongs(user, g) by {
        assert(snapshot::reaches(groups, user, g) <==> db.belongs(user, g));
    }
    database::lemma_tuples_of_grants(rows);
    assert forall|i: int| 0 <= i < rows.len() implies (gives(
        #[trigger] v[i],
        v,
        resource,
        relation,
        user,
    ) <==> db.is_grant_of(user, resource, relation, rows[i])) by {
        let row = rows[i];
        assert(v[i] == snapshot::tuple_of_grant(row));
        if row.subject_type == "group"@ {
            laws::lemma_suffix(v[i].subject_id, row.subject_id, "#member"@);
        }
    }
    if related(v, resource, relation, user) {
        let i = choose|i: int|
            0 <= i < v.len() && gives(#[trigger] v[i], v, resource, relation, user);
        if i >= rows.len() {
            assert(v[i] == groups[i - rows.len()]);
            assert(groups[i - rows.len()].object_type == "group"@);
        } else {
            assert(db.is_grant_of(user, resource, relation, rows[i]));
        }
    }
    if exists|i: int|
        0 <= i < rows.len() && db.is_grant_of(user, resource, relation, #[trigger] rows[i]) {
        let i = choose|i: int|
            0 <= i < rows.len() && db.is_grant_of(user, resource, relation, #[trigger] rows[i]);
        assert(gives(v[i], v, resource, relation, user));
    }
}

/// Where the repository of a resource is among those that are read, the tuples say
/// of the resource what all the grants say.
proof fn lemma_related_is_holding(
    db: DatabaseView,
    repositories: Seq<Seq<char>>,
    user: Seq<char>,
    resource: Seq<char>,
    relation: Seq<char>,
)
    requires
        db.wf(),
        repositories.contains(resource_id::repository_of(resource)),
    ensures
        related(db.tuples_on(repositories, user), resource, relation, user) <==> db.holds(
            user,
            resource,
            relation,
        ),
{
    let rows = db.grants.filter(is_on(repositories));
    lemma_related_by_grants(db, rows, user, resource, relation);
    if db.holds(user, resource, relation) {
        let k = choose|k: int|
            0 <= k < db.grants.len() && db.is_grant_of(
                user,
                resource,
                relation,
                #[trigger] db.grants[k],
            );
        let row = db.grants[k];
        resource_id::law_resource_stands_for_its_repository(row.repository_id);
        assert(is_on(repositories)(row));
        database::lemma_filter_keeps(db.grants, is_on(repositories), row);
        let i = choose|i: int| 0 <= i < rows.len() && rows[i] == row;
        assert(db.is_grant_of(user, resource, relation, rows[i]));
    }
    if exists|i: int|
        0 <= i < rows.len() && db.is_grant_of(user, resource, relation, #[trigger] rows[i]) {
        let i = choose|i: int|
            0 <= i < rows.len() && db.is_grant_of(user, resource, relation, #[trigger] rows[i]);
        database::lemma_filter_keeps(db.grants, is_on(repositories), rows[i]);
        let k = choose|k: int| 0 <= k < db.grants.len() && db.grants[k] == rows[i];
        assert(db.is_grant_of(user, resource, relation, db.grants[k]));
    }
}

proof fn lemma_any_plain(holding: Seq<bool>)
    ensures
        checks::any_holds(holding.map_values(|b: bool| checks::plain(b))) == Ok::<
            bool,
            CoreErrorView,
        >(holding.contains(true)),
    decreases holding.len(),
{
    let outcomes = holding.map_values(|b: bool| checks::plain(b));
    if holding.len() > 0 {
        lemma_any_plain(holding.skip(1));
        assert(outcomes.skip(1) =~= holding.skip(1).map_values(|b: bool| checks::plain(b)));
        assert(outcomes[0] == checks::plain(holding[0]));
        if holding.skip(1).contains(true) {
            let i = choose|i: int| 0 <= i < holding.skip(1).len() && holding.skip(1)[i] == true;
            assert(holding[i + 1] == true);
        }
        if holding.contains(true) && !holding[0] {
            let i = choose|i: int| 0 <= i < holding.len() && holding[i] == true;
            assert(holding.skip(1)[i - 1] == true);
        }
    }
}

/// A user may do something with a resource if the user has one of the roles that
/// permit it.
pub proof fn law_access_is_by_roles(
    db: DatabaseView,
    user: Seq<char>,
    resource: Seq<char>,
    action: Seq<char>,
)
    requires
        db.wf(),
    ensures
        db.may(user, resource, action) == Ok::<bool, CoreErrorView>(
            exists|k: int|
                0 <= k < checks::relations_for(action).len() && db.holds(
                    user,
                    resource,
                    #[trigger] checks::relations_for(action)[k],
                ),
        ),
{
    let relations = checks::relations_for(action);
    let repositories = seq![resource_id::repository_of(resource)];
    assert(repositories[0] == resource_id::repository_of(resource));
    let holding = relations.map_values(
        |relation: Seq<char>| db.holds(user, resource, relation),
    );
    assert forall|k: int| 0 <= k < relations.len() implies related(
        db.tuples_on(repositories, user),
        resource,
        #[trigger] relations[k],
        user,
    ) == holding[k] by {
        lemma_related_is_holding(db, repositories, user, resource, relations[k]);
    }
    lemma_any_plain(holding);
    assert(db.access_outcomes(user, resource, action) =~= holding.map_values(
        |b: bool| checks::plain(b),
    ));
    if holding.contains(true) {
        let k = choose|k: int| 0 <= k < holding.len() && holding[k] == true;
        assert(db.holds(user, resource, relations[k]));
    }
    if exists|k: int| 0 <= k < relations.len() && db.holds(user, resource, #[trigger] relations[k]) {
        let k = choose|k: int|
            0 <= k < relations.len() && db.holds(user, resource, #[trigger] relations[k]);
        assert(holding[k] == true);
    }
}

/// The checks for an action, made in turn until one is not denied, come to what all
/// of them come to.
pub proof fn law_checks_in_turn_give_the_answer(
    db: DatabaseView,
    user: Seq<char>,
    resource: Seq<char>,
    action: Seq<char>,
    n: int,
    answer: Result<bool, CoreErrorView>,
)
    requires
        0 <= n <= checks::relations_for(action).len(),
        checks::access_step(action, db.access_outcomes(user, resource, action).take(n)) == Err::<
            Seq<char>,
            _,
        >(answer),
    ensures
        answer == db.may(user, resource, action),
{
    let all = db.access_outcomes(user, resource, action);
    let made = all.take(n);
    assert(made + all.skip(n) =~= all);
    if checks::any_holds(made) != Ok::<bool, CoreErrorView>(false) {
        checks::law_first_answer_decides(made, all.skip(n));
    } else {
        assert(made =~= all);
    }
}

// ---------------------------------------------------------------------------
// The list
// ---------------------------------------------------------------------------

/// What is permitted on one of the resources, by the roles of the user.
pub open spec fn permitted_by_roles(db: DatabaseView, user: Seq<char>) -> spec_fn(
    Seq<char>,
) -> Seq<Permission> {
    |resource: Seq<char>|
        permissions::listed(
            checks::permitted(
                db.holds(user, resource, "admin"@),
                db.holds(user, resource, "reader"@),
                db.holds(user, resource, "writer"@),
            ),
        )
}

/// The checks for the permissions on a resource, made in turn as far as they are
/// asked for, come to what the roles of the user permit.
pub proof fn law_permission_checks_give_what_the_roles_permit(
    db: DatabaseView,
    ids: Seq<Seq<char>>,
    user: Seq<char>,
    resource: Seq<char>,
    n: int,
    answer: Result<Seq<Permission>, CoreErrorView>,
)
    requires
        db.wf(),
        ids.contains(resource),
        0 <= n <= 3,
        checks::permission_step(db.permission_outcomes(ids, user, resource).take(n)) == Err::<
            Seq<char>,
            _,
        >(answer),
    ensures
        answer == Ok::<_, CoreErrorView>(permitted_by_roles(db, user)(resource)),
{
    let repositories = query::repositories_of(ids);
    let at = choose|at: int| 0 <= at < ids.len() && ids[at] == resource;
    assert(repositories[at] == resource_id::repository_of(resource));
    lemma_related_is_holding(db, repositories, user, resource, "admin"@);
    lemma_related_is_holding(db, repositories, user, resource, "reader"@);
    lemma_related_is_holding(db, repositories, user, resource, "writer"@);
    let admin = db.holds(user, resource, "admin"@);
    let reader = db.holds(user, resource, "reader"@);
    let writer = db.holds(user, resource, "writer"@);
    if admin {
        assert(checks::permitted(true, false, false) =~= checks::permitted(admin, reader, writer));
    }
}

proof fn lemma_gathered_resources(
    rows: Seq<(Seq<char>, Seq<char>)>,
    prefix: Seq<char>,
    k: Seq<char>,
)
    requires
        gather::gathered(rows, prefix) is Ok,
    ensures
        gather::gathered(rows, prefix)->Ok_0.contains_key(k) <==> text::has_prefix(k, prefix)
            && exists|i: int|
            0 <= i < rows.len() && gather::resource_or_empty((#[trigger] rows[i]).0) == k,
    decreases rows.len(),
{
    if rows.len() > 0 {
        let front = rows.drop_last();
        lemma_gathered_resources(front, prefix, k);
        let resource = gather::resource_or_empty(rows.last().0);
        if prefix.len() == 0 {
            assert(resource.subrange(0, 0) =~= prefix);
            assert(text::has_prefix(resource, prefix));
        }
        if exists|i: int|
            0 <= i < front.len() && gather::resource_or_empty((#[trigger] front[i]).0) == k {
            let i = choose|i: int|
                0 <= i < front.len() && gather::resource_or_empty((#[trigger] front[i]).0) == k;
            assert(rows[i] == front[i]);
        }
        if exists|i: int|
            0 <= i < rows.len() && gather::resource_or_empty((#[trigger] rows[i]).0) == k {
            let i = choose|i: int|
                0 <= i < rows.len() && gather::resource_or_empty((#[trigger] rows[i]).0) == k;
            if i < front.len() {
                assert(front[i] == rows[i]);
            } else {
                assert(rows.last() == rows[i]);
            }
        }
        if resource == k {
            assert(rows[rows.len() - 1] == rows.last());
        }
    }
}

proof fn lemma_known_roles_are_gathered(rows: Seq<(Seq<char>, Seq<char>)>, prefix: Seq<char>)
    requires
        forall|i: int| 0 <= i < rows.len() ==> roles::role_named((#[trigger] rows[i]).1) is Some,
    ensures
        gather::gathered(rows, prefix) is Ok,
    decreases rows.len(),
{
    if rows.len() > 0 {
        let front = rows.drop_last();
        assert forall|i: int| 0 <= i < front.len() implies roles::role_named(
            (#[trigger] front[i]).1,
        ) is Some by {
            assert(front[i] == rows[i]);
        }
        lemma_known_roles_are_gathered(front, prefix);
        assert(roles::role_named(rows[rows.len() - 1].1) is Some);
    }
}

proof fn lemma_same_listing(
    ids: Seq<Seq<char>>,
    a: spec_fn(Seq<char>) -> Seq<Permission>,
    b: spec_fn(Seq<char>) -> Seq<Permission>,
)
    requires
        forall|i: int| 0 <= i < ids.len() ==> a(#[trigger] ids[i]) == b(ids[i]),
    ensures
        listing(ids, a) == listing(ids, b),
    decreases ids.len(),
{
    if ids.len() > 0 {
        let front = ids.drop_last();
        assert forall|i: int| 0 <= i < front.len() implies a(#[trigger] front[i]) == b(
            front[i],
        ) by {
            assert(front[i] == ids[i]);
        }
        lemma_same_listing(front, a, b);
        assert(a(ids[ids.len() - 1]) == b(ids[ids.len() - 1]));
    }
}

/// An entry of the list stands for a resource on which something is permitted, in
/// the order of the resources.
proof fn lemma_listing(ids: Seq<Seq<char>>, permitted: spec_fn(Seq<char>) -> Seq<Permission>)
    ensures
        forall|i: int|
            0 <= i < listing(ids, permitted).len() ==> {
                let e = #[trigger] listing(ids, permitted)[i];
                &&& ids.contains(e.resource_id)
                &&& e.permission == permitted(e.resource_id)
                &&& e.permission.len() > 0
            },
        forall|id: Seq<char>| #[trigger]
            ids.contains(id) && permitted(id).len() > 0 ==> exists|i: int|
                0 <= i < listing(ids, permitted).len() && (#[trigger] listing(
                    ids,
                    permitted,
                )[i]).resource_id == id,
        ids.no_duplicates() && order::in_order::<String>(ids) ==> forall|i: int, j: int|
            0 <= i < j < listing(ids, permitted).len() ==> entry_before(
                #[trigger] listing(ids, permitted)[i],
                #[trigger] listing(ids, permitted)[j],
            ),
    decreases ids.len(),
{
    let out = listing(ids, permitted);
    if ids.len() > 0 {
        let front = ids.drop_last();
        let before = listing(front, permitted);
        lemma_listing(front, permitted);
        assert forall|i: int| 0 <= i < out.len() implies {
            let e = #[trigger] out[i];
            &&& ids.contains(e.resource_id)
            &&& e.permission == permitted(e.resource_id)
            &&& e.permission.len() > 0
        } by {
            if i < before.len() {
                assert(out[i] == before[i]);
                let k = choose|k: int| 0 <= k < front.len() && front[k] == before[i].resource_id;
                assert(ids[k] == front[k]);
            } else {
                assert(ids[ids.len() - 1] == out[i].resource_id);
            }
        }
        assert forall|id: Seq<char>| #[trigger] ids.contains(id) && permitted(id).len()
            > 0 implies exists|i: int| 0 <= i < out.len() && (#[trigger] out[i]).resource_id == id by {
            if id == ids.last() {
                assert(out[out.len() - 1].resource_id == id);
            } else {
                let k = choose|k: int| 0 <= k < ids.len() && ids[k] == id;
                assert(front[k] == id);
                assert(front.contains(id));
                let i = choose|i: int|
                    0 <= i < before.len() && (#[trigger] before[i]).resource_id == id;
                assert(out[i] == before[i]);
            }
        }
        if ids.no_duplicates() && order::in_order::<String>(ids) {
            assert(front.no_duplicates()) by {
                assert forall|a: int, b: int| 0 <= a < front.len() && 0 <= b < front.len() && a
                    != b implies front[a] != front[b] by {
                    assert(ids[a] != ids[b]);
                }
            }
            assert(order::in_order::<String>(front)) by {
                assert forall|a: int, b: int| 0 <= a <= b < front.len() implies order::keys_le(
                    <String as order::Ranked>::rank(#[trigger] front[a]),
                    <String as order::Ranked>::rank(#[trigger] front[b]),
                ) by {
                    assert(front[a] == ids[a] && front[b] == ids[b]);
                }
            }
            assert forall|i: int, j: int| 0 <= i < j < out.len() implies entry_before(
                #[trigger] out[i],
                #[trigger] out[j],
            ) by {
                assert(out[i] == before[i]);
                if j < before.len() {
                    assert(out[j] == before[j]);
                } else {
                    let k = choose|k: int|
                        0 <= k < front.len() && front[k] == before[i].resource_id;
                    let last = ids.len() - 1;
                    assert(ids[k] == front[k]);
                    assert(ids[k] != ids[last]);
                    assert(order::keys_le(
                        <String as order::Ranked>::rank(ids[k]),
                        <String as order::Ranked>::rank(ids[last]),
                    ));
                    assert(seq![ids[k]][0] != seq![ids[last]][0]);
                }
            }
        }
    }
}

/// Whether one entry of a list comes before another, by the resource.
pub open spec fn entry_before(a: ResourcePermissionView, b: ResourcePermissionView) -> bool {
    a.resource_id != b.resource_id && order::text_le(a.resource_id, b.resource_id)
}

/// The lists of permissions that there are: one may read, or write as well, or do
/// everything.
pub open spec fn is_permission_list(v: Seq<Permission>) -> bool {
    ||| v == seq![Permission::Read]
    ||| v == seq![Permission::Read, Permission::Write]
    ||| v == seq![Permission::Read, Permission::Write, Permission::Admin]
}

proof fn lemma_role_names()
    ensures
        "admin"@ != "reader"@,
        "admin"@ != "writer"@,
        "reader"@ != "writer"@,
        "read"@ != "write"@,
        checks::relations_for("read"@) == seq!["reader"@, "writer"@, "admin"@],
        checks::relations_for("write"@) == seq!["writer"@, "admin"@],
{
    reveal_strlit("admin");
    reveal_strlit("reader");
    reveal_strlit("writer");
    reveal_strlit("read");
    reveal_strlit("write");
    assert("reader"@[0] != "writer"@[0]);
    assert("admin"@.len() != "reader"@.len());
    assert("admin"@.len() != "writer"@.len());
    assert("read"@.len() != "write"@.len());
}

proof fn lemma_reading_and_writing(db: DatabaseView, user: Seq<char>, resource: Seq<char>)
    requires
        db.wf(),
    ensures
        db.may(user, resource, "read"@) == Ok::<bool, CoreErrorView>(
            db.holds(user, resource, "reader"@) || db.holds(user, resource, "writer"@) || db.holds(
                user,
                resource,
                "admin"@,
            ),
        ),
        db.may(user, resource, "write"@) == Ok::<bool, CoreErrorView>(
            db.holds(user, resource, "writer"@) || db.holds(user, resource, "admin"@),
        ),
{
    lemma_role_names();
    law_access_is_by_roles(db, user, resource, "read"@);
    law_access_is_by_roles(db, user, resource, "write"@);
    let reading = checks::relations_for("read"@);
    let writing = checks::relations_for("write"@);
    assert(reading[0] == "reader"@ && reading[1] == "writer"@ && reading[2] == "admin"@);
    assert(writing[0] == "writer"@ && writing[1] == "admin"@);
}

/// What is listed for a user on a database that does not change is what the user is
/// found to be allowed when asked: the entries are in the order of their resources,
/// none twice; each is of a resource with the prefix; a resource with the prefix is
/// listed if and only if the user may read it, with the permission to write if and
/// only if the user may write it, and with that of an administrator if and only if
/// the user is one.
///
/// `rows` are the roles of the user, `ids` the resources with the prefix that they
/// are on, `answers` what the checks for each of them come to, and `out` the list
/// made of that.
pub proof fn law_listing_agrees_with_access(
    db: DatabaseView,
    user: Seq<char>,
    prefix: Seq<char>,
    rows: Seq<(Seq<char>, Seq<char>)>,
    ids: Seq<Seq<char>>,
    answers: spec_fn(Seq<char>) -> Seq<Permission>,
    out: Seq<ResourcePermissionView>,
)
    requires
        db.wf(),
        db.are_roles_of(user, rows),
        gather::gathered(rows, prefix) matches Ok(m) ==> order::is_listing::<String>(ids, m.dom()),
        forall|i: int|
            0 <= i < ids.len() ==> db.is_answer(ids, user, #[trigger] ids[i], answers(ids[i])),
        out == listing(ids, answers),
    ensures
        gather::gathered(rows, prefix) is Ok,
        forall|i: int, j: int|
            0 <= i < j < out.len() ==> entry_before(#[trigger] out[i], #[trigger] out[j]),
        forall|i: int|
            0 <= i < out.len() ==> {
                let e = #[trigger] out[i];
                &&& text::has_prefix(e.resource_id, prefix)
                &&& is_permission_list(e.permission)
                &&& db.may(user, e.resource_id, "read"@) == Ok::<bool, CoreErrorView>(true)
                &&& e.permission.contains(Permission::Write) <==> db.may(
                    user,
                    e.resource_id,
                    "write"@,
                ) == Ok::<bool, CoreErrorView>(true)
                &&& e.permission.contains(Permission::Admin) <==> db.holds(
                    user,
                    e.resource_id,
                    "admin"@,
                )
            },
        forall|resource: Seq<char>|
            text::has_prefix(resource, prefix) && #[trigger] db.may(user, resource, "read"@)
                == Ok::<bool, CoreErrorView>(true) ==> exists|i: int|
                0 <= i < out.len() && (#[trigger] out[i]).resource_id == resource,
{
    assert forall|i: int| 0 <= i < rows.len() implies roles::role_named(
        (#[trigger] rows[i]).1,
    ) is Some by {
        let k = choose|k: int|
            {
                &&& 0 <= k < db.grants.len()
                &&& db.is_held(user, #[trigger] db.grants[k])
                &&& rows[i] == (db.grants[k].repository_id, db.grants[k].role)
            };
        assert(roles::role_named(db.grants[k].role) is Some);
    }
    lemma_known_roles_are_gathered(rows, prefix);
    let m = gather::gathered(rows, prefix)->Ok_0;
    let permitted = permitted_by_roles(db, user);
    assert forall|i: int| 0 <= i < ids.len() implies answers(#[trigger] ids[i]) == permitted(
        ids[i],
    ) by {
        let n = choose|n: int|
            0 <= n <= 3 && #[trigger] checks::permission_step(
                db.permission_outcomes(ids, user, ids[i]).take(n),
            ) == Err::<Seq<char>, Result<Seq<Permission>, CoreErrorView>>(Ok(answers(ids[i])));
        assert(ids.contains(ids[i]));
        law_permission_checks_give_what_the_roles_permit(
            db,
            ids,
            user,
            ids[i],
            n,
            Ok(answers(ids[i])),
        );
    }
    lemma_same_listing(ids, answers, permitted);
    lemma_listing(ids, permitted);
    assert forall|id: Seq<char>| #[trigger] ids.contains(id) <==> m.contains_key(id) by {
        assert(ids.to_set().contains(id) <==> m.dom().contains(id));
    }
    assert forall|i: int| 0 <= i < out.len() implies {
        let e = #[trigger] out[i];
        &&& text::has_prefix(e.resource_id, prefix)
        &&& is_permission_list(e.permission)
        &&& db.may(user, e.resource_id, "read"@) == Ok::<bool, CoreErrorView>(true)
        &&& e.permission.contains(Permission::Write) <==> db.may(user, e.resource_id, "write"@)
            == Ok::<bool, CoreErrorView>(true)
        &&& e.permission.contains(Permission::Admin) <==> db.holds(user, e.resource_id, "admin"@)
    } by {
        let e = out[i];
        assert(ids.contains(e.resource_id));
        lemma_gathered_resources(rows, prefix, e.resource_id);
        lemma_reading_and_writing(db, user, e.resource_id);
        lemma_listed_permissions(
            db.holds(user, e.resource_id, "admin"@),
            db.holds(user, e.resource_id, "reader"@),
            db.holds(user, e.resource_id, "writer"@),
        );
    }
    assert forall|resource: Seq<char>|
        text::has_prefix(resource, prefix) && #[trigger] db.may(user, resource, "read"@) == Ok::<
            bool,
            CoreErrorView,
        >(true) implies exists|i: int|
        0 <= i < out.len() && (#[trigger] out[i]).resource_id == resource by {
        lemma_reading_and_writing(db, user, resource);
        let role = if db.holds(user, resource, "reader"@) {
            "reader"@
        } else if db.holds(user, resource, "writer"@) {
            "writer"@
        } else {
            "admin"@
        };
        let k = choose|k: int|
            0 <= k < db.grants.len() && db.is_grant_of(
                user,
                resource,
                role,
                #[trigger] db.grants[k],
            );
        let row = (db.grants[k].repository_id, db.grants[k].role);
        assert(rows.contains(row));
        let at = choose|at: int| 0 <= at < rows.len() && rows[at] == row;
        assert(gather::resource_or_empty(rows[at].0) == resource);
        lemma_gathered_resources(rows, prefix, resource);
        assert(ids.contains(resource));
        lemma_listed_permissions(
            db.holds(user, resource, "admin"@),
            db.holds(user, resource, "reader"@),
            db.holds(user, resource, "writer"@),
        );
    }
}

proof fn lemma_listed_permissions(admin: bool, reader: bool, writer: bool)
    ensures
        ({
            let list = permissions::listed(checks::permitted(admin, reader, writer));
            &&& list.len() > 0 <==> admin || reader || writer
            &&& list.len() > 0 ==> is_permission_list(list)
            &&& list.contains(Permission::Write) <==> admin || writer
            &&& list.contains(Permission::Admin) <==> admin
        }),
{
    let list = permissions::listed(checks::permitted(admin, reader, writer));
    if admin {
        assert(list =~= seq![Permission::Read, Permission::Write, Permission::Admin]);
        assert(list[1] == Permission::Write);
        assert(list[2] == Permission::Admin);
    } else if writer {
        assert(list =~= seq![Permission::Read, Permission::Write]);
        assert(list[1] == Permission::Write);
    } else if reader {
        assert(list =~= seq![Permission::Read]);
    } else {
        assert(list =~= Seq::<Permission>::empty());
    }
}

} // verus!
