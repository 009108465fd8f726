//! Grants, what they permit, and by which way they reach a user.

use vstd::prelude::*;

use crate::error::{invalid, CoreError, CoreErrorView};
use crate::ids;
use crate::ids::new_id;
use crate::memory::{GrantKey, Store, StoreView};
use crate::model::{
    Grant, GrantEvidence, GrantEvidenceView, GrantView, ResourceFilter, ResourcePermission,
    ResourcePermissionView, UserView,
};
use crate::nesting;
use crate::nesting::GroupEdge;
use crate::order;
use crate::order::sort;
use crate::permissions::PermissionSet;
use crate::resource_id;
use crate::resource_id::ResourceID;
use crate::roles;
use crate::roles::{is_known_role, role_allows, role_permissions, Permission};
use crate::table;
use crate::table::Table;
use crate::text;
use crate::text::{begins_with, cat2, cat3, cat5, debug_text, has_member, is_blank, same};
use crate::walk;
use crate::walk::describe;

verus! {

// ---------------------------------------------------------------------------
// Access
// ---------------------------------------------------------------------------

impl StoreView {
    /// Whether a grant to such a subject reaches a user: it is to the user, or
    /// to a group that the user belongs to.
    pub open spec fn reaches(self, user: Seq<char>, kind: Seq<char>, subject: Seq<char>) -> bool {
        ||| kind == "user"@ && subject == user
        ||| kind == "group"@ && self.belongs(user, subject)
    }

    /// Whether a user may do something with a resource: some grant that reaches
    /// the user has a role that allows it.
    pub open spec fn may(self, user: Seq<char>, resource: Seq<char>, action: Seq<char>) -> bool {
        exists|kind: Seq<char>, subject: Seq<char>|
            {
                &&& #[trigger] self.grants.contains_key((kind, subject, resource))
                &&& self.reaches(user, kind, subject)
                &&& roles::allows(self.grants[(kind, subject, resource)], action)
            }
    }

    /// Whether the grant `k` reaches a user and is on a resource that is asked for.
    pub open spec fn counts(
        self,
        k: (Seq<char>, Seq<char>, Seq<char>),
        user: Seq<char>,
        prefix: Seq<char>,
    ) -> bool {
        &&& self.grants.contains_key(k)
        &&& self.reaches(user, k.0, k.1)
        &&& prefix.len() == 0 || text::has_prefix(k.2, prefix)
    }

    /// Whether some grant that counts is on the resource.
    pub open spec fn is_accessible(
        self,
        user: Seq<char>,
        prefix: Seq<char>,
        resource: Seq<char>,
    ) -> bool {
        exists|k: (Seq<char>, Seq<char>, Seq<char>)| #[trigger]
            self.counts(k, user, prefix) && k.2 == resource
    }

    /// Whether some grant that counts is on the resource and gives the permission.
    pub open spec fn has_permission(
        self,
        user: Seq<char>,
        prefix: Seq<char>,
        resource: Seq<char>,
        p: Permission,
    ) -> bool {
        exists|k: (Seq<char>, Seq<char>, Seq<char>)| #[trigger]
            self.counts(k, user, prefix) && k.2 == resource && role_gives(self.grants[k], p)
    }

    /// Everything that a user may do with the resources that are asked for.
    pub open spec fn accessible(self, user: Seq<char>, prefix: Seq<char>) -> Set<
        ResourcePermissionView,
    > {
        Set::new(
            |rp: ResourcePermissionView|
                {
                    &&& self.is_accessible(user, prefix, rp.resource_id)
                    &&& rp.permission == by_name(
                        Set::new(
                            |p: Permission| self.has_permission(user, prefix, rp.resource_id, p),
                        ),
                    )
                },
        )
    }

    /// Whether `k` is a grant that counts with a role that is not known.
    pub open spec fn is_odd_grant(
        self,
        k: (Seq<char>, Seq<char>, Seq<char>),
        user: Seq<char>,
        prefix: Seq<char>,
    ) -> bool {
        self.counts(k, user, prefix) && roles::role_named(self.grants[k]) is None
    }
}

/// Whether the role of that name gives the permission.
pub open spec fn role_gives(role: Seq<char>, p: Permission) -> bool {
    roles::role_named(role) matches Some(r) && roles::permissions_of(r).contains(p)
}

/// The permissions of a set in the order of their names.
pub open spec fn by_name(s: Set<Permission>) -> Seq<Permission> {
    let a = if s.contains(Permission::Admin) {
        seq![Permission::Admin]
    } else {
        seq![]
    };
    let r = if s.contains(Permission::Read) {
        a.push(Permission::Read)
    } else {
        a
    };
    if s.contains(Permission::Write) {
        r.push(Permission::Write)
    } else {
        r
    }
}

fn list_by_name(s: PermissionSet) -> (r: Vec<Permission>)
    ensures
        r@ == by_name(s@),
{
    let mut out: Vec<Permission> = Vec::new();
    if s.admin {
        out.push(Permission::Admin);
    }
    if s.read {
        out.push(Permission::Read);
    }
    if s.write {
        out.push(Permission::Write);
    }
    out
}

/// Whether a grant to such a subject reaches a user who belongs to `groups`.
fn reaches_one_of(kind: &str, subject: &str, user_id: &str, groups: &Vec<String>) -> (r: bool)
    ensures
        r == ((kind@ == "user"@ && subject@ == user_id@) || (kind@ == "group"@ && text::texts(
            groups@,
        ).contains(subject@))),
{
    (same(kind, "user") && same(subject, user_id)) || (same(kind, "group") && has_member(
        groups,
        subject,
    ))
}

fn add_permissions(set: PermissionSet, permissions: &Vec<Permission>) -> (r: PermissionSet)
    ensures
        forall|p: Permission| #[trigger]
            r@.contains(p) <==> set@.contains(p) || permissions@.contains(p),
{
    let mut out = set;
    let mut i: usize = 0;
    while i < permissions.len()
        invariant
            i <= permissions@.len(),
            forall|p: Permission| #[trigger]
                out@.contains(p) <==> set@.contains(p) || permissions@.take(i as int).contains(p),
        decreases permissions@.len() - i,
    {
        let ghost before = permissions@.take(i as int);
        out.insert(permissions[i]);
        i += 1;
        proof {
            let after = permissions@.take(i as int);
            assert(after =~= before.push(permissions@[i - 1]));
            assert forall|p: Permission| after.contains(p) <==> before.contains(p) || p
                == permissions@[i - 1] by {
                if before.contains(p) {
                    let k = choose|k: int| 0 <= k < before.len() && before[k] == p;
                    assert(after[k] == p);
                }
                assert(after[after.len() - 1] == permissions@[i - 1]);
            }
        }
    }
    assert(permissions@.take(i as int) =~= permissions@);
    out
}

impl Store {
    /// Whether a user may do something with a resource.
    pub fn can_access(&self, user_id: &str, resource_id: &str, action: &str) -> (r: Result<
        bool,
        CoreError,
    >)
        requires
            self.wf(),
        ensures
            r == Ok::<bool, CoreError>(self@.may(user_id@, resource_id@, action@)),
    {
        let groups = self.groups_of_user(user_id);
        let mut i: usize = 0;
        while i < self.grants.len()
            invariant
                self.wf(),
                i <= self.grants.rows().len(),
                forall|g: Seq<char>|
                    text::texts(groups@).contains(g) <==> #[trigger] self@.belongs(user_id@, g),
                forall|j: int|
                    0 <= j < i ==> !{
                        let k = (#[trigger] self.grants.rows()[j]).0;
                        &&& k.2 == resource_id@
                        &&& self@.reaches(user_id@, k.0, k.1)
                        &&& roles::allows(self.grants.rows()[j].1, action@)
                    },
            decreases self.grants.rows().len() - i,
        {
            proof {
                table::lemma_map_of(self.grants.rows());
            }
            let key = self.grants.key_at(i);
            let role = self.grants.value_at(i);
            let ghost row = self.grants.rows()[i as int];
            assert(self@.grants.contains_key((row.0.0, row.0.1, row.0.2)));
            assert(self@.belongs(user_id@, row.0.1) == text::texts(groups@).contains(row.0.1));
            if same(key.resource_id.as_str(), resource_id) && reaches_one_of(
                key.subject_type.as_str(),
                key.subject_id.as_str(),
                user_id,
                &groups,
            ) && role_allows(role.as_str(), action) {
                return Ok(true);
            }
            i += 1;
        }
        proof {
            table::lemma_map_of(self.grants.rows());
            assert forall|kind: Seq<char>, subject: Seq<char>|
                {
                    &&& #[trigger] self@.grants.contains_key((kind, subject, resource_id@))
                    &&& self@.reaches(user_id@, kind, subject)
                } implies !roles::allows(
                self@.grants[(kind, subject, resource_id@)],
                action@,
            ) by {
                let j = table::row_of(self.grants.rows(), (kind, subject, resource_id@));
                assert(self.grants.rows()[j].0 == (kind, subject, resource_id@));
            }
        }
        Ok(false)
    }

    /// The resources that a user has access to, and what the user may do with
    /// each of them.
    pub fn list_accessible(&self, user_id: &str, filter: ResourceFilter) -> (r: Result<
        Vec<ResourcePermission>,
        CoreError,
    >)
        requires
            self.wf(),
        ensures
            match r {
                Ok(out) => {
                    &&& forall|k: (Seq<char>, Seq<char>, Seq<char>)|
                        !(#[trigger] self@.is_odd_grant(k, user_id@, filter@.prefix))
                    &&& order::is_listing::<ResourcePermission>(
                        order::views(out@),
                        self@.accessible(user_id@, filter@.prefix),
                    )
                },
                Err(e) => exists|k: (Seq<char>, Seq<char>, Seq<char>)| #[trigger]
                    self@.is_odd_grant(k, user_id@, filter@.prefix) && e@
                        == CoreErrorView::InvalidArgument(
                        "unknown role "@ + text::debug_quoted(self@.grants[k]),
                    ),
            },
    {
        let groups = self.groups_of_user(user_id);
        let prefix = filter.prefix;
        let ghost user = user_id@;
        let ghost rows = self.grants.rows();
        let mut acc: Table<String, PermissionSet> = Table::new();
        let mut i: usize = 0;
        while i < self.grants.len()
            invariant
                self.wf(),
                acc.wf(),
                rows == self.grants.rows(),
                user == user_id@,
                prefix@ == filter@.prefix,
                i <= rows.len(),
                forall|g: Seq<char>|
                    text::texts(groups@).contains(g) <==> #[trigger] self@.belongs(user_id@, g),
                forall|j: int|
                    0 <= j < i ==> !(#[trigger] self@.is_odd_grant(rows[j].0, user, prefix@)),
                forall|res: Seq<char>| #[trigger]
                    acc@.contains_key(res) <==> exists|j: int|
                        0 <= j < i && #[trigger] self@.counts(rows[j].0, user, prefix@)
                            && rows[j].0.2 == res,
                forall|res: Seq<char>, p: Permission|
                    acc@.contains_key(res) ==> (#[trigger] acc@[res].contains(p) <==> exists|j: int|
                        0 <= j < i && #[trigger] self@.counts(rows[j].0, user, prefix@)
                            && rows[j].0.2 == res && role_gives(rows[j].1, p)),
            decreases rows.len() - i,
        {
            proof {
                table::lemma_map_of(rows);
            }
            let key = self.grants.key_at(i);
            let role = self.grants.value_at(i);
            let ghost k = rows[i as int].0;
            let ghost before = acc@;
            assert(self@.grants.contains_key(k));
            assert(self@.belongs(user, k.1) == text::texts(groups@).contains(k.1));
            let counted = reaches_one_of(
                key.subject_type.as_str(),
                key.subject_id.as_str(),
                user_id,
                &groups,
            ) && (prefix.is_empty() || begins_with(key.resource_id.as_str(), prefix.as_str()));
            assert(counted == self@.counts(k, user, prefix@));
            if counted {
                let permissions = match role_permissions(role.as_str()) {
                    Some(permissions) => permissions,
                    None => {
                        assert(self@.is_odd_grant(k, user, prefix@));
                        return Err(
                            invalid(
                                cat2("unknown role ", debug_text(role.as_str()).as_str()).as_str(),
                            ),
                        );
                    },
                };
                let set = match acc.get(&key.resource_id) {
                    Some(set) => *set,
                    None => PermissionSet::default(),
                };
                let more = add_permissions(set, &permissions);
                acc.insert(key.resource_id.clone(), more);
                proof {
                    assert forall|res: Seq<char>| #[trigger]
                        acc@.contains_key(res) <==> exists|j: int|
                            0 <= j < i + 1 && #[trigger] self@.counts(rows[j].0, user, prefix@)
                                && rows[j].0.2 == res by {
                        if before.contains_key(res) {
                            let j = choose|j: int|
                                0 <= j < i && #[trigger] self@.counts(rows[j].0, user, prefix@)
                                    && rows[j].0.2 == res;
                            assert(self@.counts(rows[j].0, user, prefix@));
                        }
                        if res == k.2 {
                            assert(self@.counts(rows[i as int].0, user, prefix@));
                        }
                    }
                    assert forall|res: Seq<char>, p: Permission|
                        acc@.contains_key(res) implies (#[trigger] acc@[res].contains(p)
                        <==> exists|j: int|
                        0 <= j < i + 1 && #[trigger] self@.counts(rows[j].0, user, prefix@)
                            && rows[j].0.2 == res && role_gives(rows[j].1, p)) by {
                        assert(role_gives(rows[i as int].1, p) == permissions@.contains(p));
                        if acc@[res].contains(p) {
                            if before.contains_key(res) && before[res].contains(p) {
                                let j = choose|j: int|
                                    0 <= j < i && #[trigger] self@.counts(
                                        rows[j].0,
                                        user,
                                        prefix@,
                                    ) && rows[j].0.2 == res && role_gives(rows[j].1, p);
                                assert(self@.counts(rows[j].0, user, prefix@));
                            } else {
                                assert(res == k.2);
                                assert(self@.counts(rows[i as int].0, user, prefix@));
                            }
                        }
                        if exists|j: int|
                            0 <= j < i + 1 && #[trigger] self@.counts(rows[j].0, user, prefix@)
                                && rows[j].0.2 == res && role_gives(rows[j].1, p) {
                            let j = choose|j: int|
                                0 <= j < i + 1 && #[trigger] self@.counts(
                                    rows[j].0,
                                    user,
                                    prefix@,
                                ) && rows[j].0.2 == res && role_gives(rows[j].1, p);
                            if j < i {
                                assert(before.contains_key(res));
                                assert(before[res].contains(p));
                            }
                        }
                    }
                }
            }
            proof {
                assert(!self@.is_odd_grant(rows[i as int].0, user, prefix@));
            }
            i += 1;
        }
        let mut found: Vec<ResourcePermission> = Vec::new();
        let mut n: usize = 0;
        while n < acc.len()
            invariant
                acc.wf(),
                n <= acc.rows().len(),
                found@.len() == n,
                forall|j: int|
                    0 <= j < n ==> (#[trigger] order::views(found@)[j]) == (ResourcePermissionView {
                        resource_id: acc.rows()[j].0,
                        permission: by_name(acc.rows()[j].1),
                    }),
            decreases acc.rows().len() - n,
        {
            let ghost before = order::views(found@);
            let entry = ResourcePermission {
                resource_id: acc.key_at(n).clone(),
                permission: list_by_name(*acc.value_at(n)),
            };
            let ghost view = entry@;
            found.push(entry);
            assert(order::views(found@) =~= before.push(view));
            n += 1;
        }
        let ghost list = order::views(found@);
        proof {
            table::lemma_map_of(acc.rows());
            table::lemma_map_of(rows);
            self.lemma_accessible(user, prefix@, acc@, list, acc.rows());
        }
        let out = sort(found);
        proof {
            order::lemma_sorted_copy::<ResourcePermission>(order::views(out@), list);
            assert forall|k: (Seq<char>, Seq<char>, Seq<char>)|
                !(#[trigger] self@.is_odd_grant(k, user, prefix@)) by {
                if self@.grants.contains_key(k) {
                    let j = table::row_of(rows, k);
                    assert(rows[j].0 == k);
                }
            }
        }
        Ok(out)
    }

    /// What was gathered grant by grant is what the user has access to.
    proof fn lemma_accessible(
        &self,
        user: Seq<char>,
        prefix: Seq<char>,
        acc: Map<Seq<char>, Set<Permission>>,
        list: Seq<ResourcePermissionView>,
        found: Seq<(Seq<char>, Set<Permission>)>,
    )
        requires
            self.wf(),
            table::distinct_keys(found),
            acc == table::map_of(found),
            list.len() == found.len(),
            forall|j: int|
                0 <= j < list.len() ==> (#[trigger] list[j]) == (ResourcePermissionView {
                    resource_id: found[j].0,
                    permission: by_name(found[j].1),
                }),
            forall|res: Seq<char>| #[trigger]
                acc.contains_key(res) <==> exists|j: int|
                    0 <= j < self.grants.rows().len() && #[trigger] self@.counts(
                        self.grants.rows()[j].0,
                        user,
                        prefix,
                    ) && self.grants.rows()[j].0.2 == res,
            forall|res: Seq<char>, p: Permission|
                acc.contains_key(res) ==> (#[trigger] acc[res].contains(p) <==> exists|j: int|
                    0 <= j < self.grants.rows().len() && #[trigger] self@.counts(
                        self.grants.rows()[j].0,
                        user,
                        prefix,
                    ) && self.grants.rows()[j].0.2 == res && role_gives(
                        self.grants.rows()[j].1,
                        p,
                    )),
        ensures
            list.no_duplicates(),
            list.to_set() == self@.accessible(user, prefix),
    {
        let rows = self.grants.rows();
        table::lemma_map_of(rows);
        table::lemma_map_of(found);
        let set = self@.accessible(user, prefix);
        assert forall|res: Seq<char>| #[trigger] acc.contains_key(res) <==> self@.is_accessible(
            user,
            prefix,
            res,
        ) by {
            if self@.is_accessible(user, prefix, res) {
                let k = choose|k: (Seq<char>, Seq<char>, Seq<char>)| #[trigger]
                    self@.counts(k, user, prefix) && k.2 == res;
                let j = table::row_of(rows, k);
                assert(self@.counts(rows[j].0, user, prefix));
            }
        }
        assert forall|res: Seq<char>| #[trigger] acc.contains_key(res) implies acc[res] == Set::new(
            |p: Permission| self@.has_permission(user, prefix, res, p),
        ) by {
            assert forall|p: Permission| #[trigger]
                acc[res].contains(p) <==> self@.has_permission(user, prefix, res, p) by {
                if acc[res].contains(p) {
                    let j = choose|j: int|
                        0 <= j < rows.len() && #[trigger] self@.counts(rows[j].0, user, prefix)
                            && rows[j].0.2 == res && role_gives(rows[j].1, p);
                    assert(self@.counts(rows[j].0, user, prefix));
                    assert(self@.grants[rows[j].0] == rows[j].1);
                }
                if self@.has_permission(user, prefix, res, p) {
                    let k = choose|k: (Seq<char>, Seq<char>, Seq<char>)| #[trigger]
                        self@.counts(k, user, prefix) && k.2 == res && role_gives(
                            self@.grants[k],
                            p,
                        );
                    let j = table::row_of(rows, k);
                    assert(self@.counts(rows[j].0, user, prefix));
                }
            }
            assert(acc[res] =~= Set::new(
                |p: Permission| self@.has_permission(user, prefix, res, p),
            ));
        }
        assert forall|a: int, b: int|
            0 <= a < list.len() && 0 <= b < list.len() && a != b implies list[a] != list[b] by {
            assert(found[a].0 != found[b].0);
        }
        assert forall|rp: ResourcePermissionView|
            list.to_set().contains(rp) <==> set.contains(rp) by {
            if list.contains(rp) {
                let j = choose|j: int| 0 <= j < list.len() && list[j] == rp;
                assert(acc.contains_key(found[j].0));
            }
            if set.contains(rp) {
                assert(acc.contains_key(rp.resource_id));
                let j = table::row_of(found, rp.resource_id);
                assert(found[j].0 == rp.resource_id);
                assert(list[j] == rp);
            }
        }
        assert(list.to_set() =~= set);
    }
}

// ---------------------------------------------------------------------------
// Giving and taking
// ---------------------------------------------------------------------------

impl StoreView {
    /// The store with a role given.
    pub open spec fn with_grant(
        self,
        kind: Seq<char>,
        subject: Seq<char>,
        resource: Seq<char>,
        role: Seq<char>,
    ) -> StoreView {
        StoreView { grants: self.grants.insert((kind, subject, resource), role), ..self }
    }

    /// The store with a role taken away.
    pub open spec fn without_grant(
        self,
        kind: Seq<char>,
        subject: Seq<char>,
        resource: Seq<char>,
    ) -> StoreView {
        StoreView { grants: self.grants.remove((kind, subject, resource)), ..self }
    }

    /// Why a role cannot be given; none where it can.
    pub open spec fn grant_refusal(
        self,
        kind: Seq<char>,
        subject: Seq<char>,
        repo: Seq<char>,
        role: Seq<char>,
    ) -> Option<CoreErrorView> {
        if roles::role_named(role) is None {
            Some(
                CoreErrorView::InvalidArgument("unknown grant role "@ + text::debug_quoted(role)),
            )
        } else {
            self.revoke_refusal(kind, subject, repo)
        }
    }

    /// Why a role cannot be taken away; none where it can.
    pub open spec fn revoke_refusal(
        self,
        kind: Seq<char>,
        subject: Seq<char>,
        repo: Seq<char>,
    ) -> Option<CoreErrorView> {
        if self.subject_refusal(kind, subject) is Some {
            self.subject_refusal(kind, subject)
        } else {
            self.repository_refusal(repo)
        }
    }

    /// Whether `after` is the store once a role was given to `id`.
    pub open spec fn is_after_grant(
        self,
        kind: Seq<char>,
        id: Seq<char>,
        repo: Seq<char>,
        role: Seq<char>,
        after: StoreView,
    ) -> bool {
        exists|k: Seq<char>| #[trigger]
            self.is_repository(k, text::trimmed(repo)) && after == self.with_grant(
                kind,
                id,
                k,
                role,
            )
    }

    /// Whether `after` is the store once the role of `id` was taken away.
    pub open spec fn is_after_revoke(
        self,
        kind: Seq<char>,
        id: Seq<char>,
        repo: Seq<char>,
        after: StoreView,
    ) -> bool {
        exists|k: Seq<char>| #[trigger]
            self.is_repository(k, text::trimmed(repo)) && after == self.without_grant(kind, id, k)
    }

    /// What the repository of a grant is called in a listing.
    pub open spec fn listed_repository(self, resource: Seq<char>) -> Seq<char> {
        if self.resources.contains_key(resource) && self.resources[resource].id.len() > 0 {
            self.resources[resource].id
        } else {
            resource_id::repository_of(resource)
        }
    }

    /// The grant `k` in a listing.
    pub open spec fn listed_grant(self, k: (Seq<char>, Seq<char>, Seq<char>)) -> GrantView {
        GrantView {
            id: Seq::empty(),
            subject_type: k.0,
            subject_id: k.1,
            repository_id: self.listed_repository(k.2),
            role: self.grants[k],
        }
    }

    /// Whether `out` lists the grants on the resource, or all grants where none is given.
    pub open spec fn lists_grants(self, resource: Option<Seq<char>>, out: Seq<GrantView>) -> bool {
        exists|keys: Seq<(Seq<char>, Seq<char>, Seq<char>)>|
            {
                &&& #[trigger] keys.no_duplicates()
                &&& forall|k: (Seq<char>, Seq<char>, Seq<char>)| #[trigger]
                    keys.contains(k) <==> self.grants.contains_key(k) && (resource matches Some(
                        r,
                    ) ==> k.2 == r)
                &&& order::is_sorted_copy::<Grant>(
                    out,
                    Seq::new(keys.len(), |i: int| self.listed_grant(keys[i])),
                )
            }
    }
}

impl Store {
    /// Gives a role to somebody who was found already.
    pub(crate) fn put_grant(&mut self, kind: &str, subject_id: &str, resource_id: &str, role: &str)
        requires
            old(self).wf(),
        ensures
            final(self).wf(),
            final(self)@ == old(self)@.with_grant(kind@, subject_id@, resource_id@, role@),
    {
        let ghost before = self@;
        self.grants.insert(
            GrantKey {
                subject_type: kind.to_owned(),
                subject_id: subject_id.to_owned(),
                resource_id: resource_id.to_owned(),
            },
            role.to_owned(),
        );
        assert(self@ =~= before.with_grant(kind@, subject_id@, resource_id@, role@));
    }

    /// Takes the role away from somebody who was found already.
    pub(crate) fn drop_grant(&mut self, kind: &str, subject_id: &str, resource_id: &str)
        requires
            old(self).wf(),
        ensures
            final(self).wf(),
            final(self)@ == old(self)@.without_grant(kind@, subject_id@, resource_id@),
    {
        let ghost before = self@;
        let _ = self.grants.remove(
            &GrantKey {
                subject_type: kind.to_owned(),
                subject_id: subject_id.to_owned(),
                resource_id: resource_id.to_owned(),
            },
        );
        assert(self@ =~= before.without_grant(kind@, subject_id@, resource_id@));
    }

    /// Gives a role on a repository to a user or a group. The grant has the
    /// identifier `id`.
    pub fn add_grant_with_id(
        &mut self,
        subject_type: &str,
        subject_id: &str,
        repo: &str,
        role: &str,
        id: String,
    ) -> (r: Result<Grant, CoreError>)
        requires
            old(self).wf(),
        ensures
            final(self).wf(),
            match r {
                Ok(grant) => {
                    &&& old(self)@.grant_refusal(subject_type@, subject_id@, repo@, role@) is None
                    &&& grant@.id == id@
                    &&& grant@.subject_type == subject_type@
                    &&& old(self)@.is_subject(subject_type@, subject_id@, grant@.subject_id)
                    &&& grant@.repository_id == repo@
                    &&& grant@.role == role@
                    &&& old(self)@.is_after_grant(
                        subject_type@,
                        grant@.subject_id,
                        repo@,
                        role@,
                        final(self)@,
                    )
                },
                Err(e) => old(self)@.grant_refusal(subject_type@, subject_id@, repo@, role@)
                    == Some(e@) && final(self)@ == old(self)@,
            },
    {
        if !is_known_role(role) {
            return Err(invalid(cat2("unknown grant role ", debug_text(role).as_str()).as_str()));
        }
        let subject = match self.resolve_grant_subject_id(subject_type, subject_id) {
            Ok(subject) => subject,
            Err(e) => {
                return Err(e);
            },
        };
        let resource = match self.resolve_resource_id_for_repo(repo) {
            Ok(resource) => resource,
            Err(e) => {
                return Err(e);
            },
        };
        assert(self@.is_repository(resource@, text::trimmed(repo@)));
        self.put_grant(subject_type, subject.as_str(), resource.as_str(), role);
        Ok(
            Grant {
                id,
                subject_type: subject_type.to_owned(),
                subject_id: subject,
                repository_id: repo.to_owned(),
                role: role.to_owned(),
            },
        )
    }

    /// Gives a role on a repository to a user or a group.
    pub fn add_grant(&mut self, subject_type: &str, subject_id: &str, repo: &str, role: &str) -> (r:
        Result<Grant, CoreError>)
        requires
            old(self).wf(),
        ensures
            final(self).wf(),
            match r {
                Ok(grant) => {
                    &&& old(self)@.grant_refusal(subject_type@, subject_id@, repo@, role@) is None
                    &&& ids::is_uuid(grant@.id)
                    &&& grant@.subject_type == subject_type@
                    &&& old(self)@.is_subject(subject_type@, subject_id@, grant@.subject_id)
                    &&& grant@.repository_id == repo@
                    &&& grant@.role == role@
                    &&& old(self)@.is_after_grant(
                        subject_type@,
                        grant@.subject_id,
                        repo@,
                        role@,
                        final(self)@,
                    )
                },
                Err(e) => old(self)@.grant_refusal(subject_type@, subject_id@, repo@, role@)
                    == Some(e@) && final(self)@ == old(self)@,
            },
    {
        let id = new_id();
        self.add_grant_with_id(subject_type, subject_id, repo, role, id)
    }

    /// Takes the role on a repository away from a user or a group, whatever the role is.
    pub fn remove_grant(&mut self, subject_type: &str, subject_id: &str, repo: &str, _role: &str)
        -> (r: Result<(), CoreError>)
        requires
            old(self).wf(),
        ensures
            final(self).wf(),
            match r {
                Ok(_) => {
                    &&& old(self)@.revoke_refusal(subject_type@, subject_id@, repo@) is None
                    &&& exists|id: Seq<char>| #[trigger]
                        old(self)@.is_subject(subject_type@, subject_id@, id)
                            && old(self)@.is_after_revoke(subject_type@, id, repo@, final(self)@)
                },
                Err(e) => old(self)@.revoke_refusal(subject_type@, subject_id@, repo@) == Some(e@)
                    && final(self)@ == old(self)@,
            },
    {
        let subject = match self.resolve_grant_subject_id(subject_type, subject_id) {
            Ok(subject) => subject,
            Err(e) => {
                return Err(e);
            },
        };
        let resource = match self.resolve_resource_id_for_repo(repo) {
            Ok(resource) => resource,
            Err(e) => {
                return Err(e);
            },
        };
        assert(self@.is_repository(resource@, text::trimmed(repo@)));
        assert(self@.is_subject(subject_type@, subject_id@, subject@));
        self.drop_grant(subject_type, subject.as_str(), resource.as_str());
        Ok(())
    }

    fn listed_repository(&self, resource_id: &String) -> (r: String)
        requires
            self.wf(),
        ensures
            r@ == self@.listed_repository(resource_id@),
    {
        if let Some(resource) = self.resources.get(resource_id) {
            if !resource.id.is_empty() {
                return resource.id.clone();
            }
        }
        ResourceID::repository_id_from_resource_id(resource_id.as_str())
    }

    /// The grants on a repository, or all grants where none is named.
    pub fn list_grants(&self, repo: &str) -> (r: Result<Vec<Grant>, CoreError>)
        requires
            self.wf(),
        ensures
            match r {
                Ok(out) => if text::trimmed(repo@).len() == 0 {
                    self@.lists_grants(None, order::views(out@))
                } else {
                    exists|k: Seq<char>| #[trigger]
                        self@.is_repository(k, text::trimmed(repo@)) && self@.lists_grants(
                            Some(k),
                            order::views(out@),
                        )
                },
                Err(e) => text::trimmed(repo@).len() > 0 && self@.repository_refusal(repo@) == Some(
                    e@,
                ),
            },
    {
        let filter = if is_blank(repo) {
            None
        } else {
            match self.resolve_resource_id_for_repo(repo) {
                Ok(resource) => Some(resource),
                Err(e) => {
                    return Err(e);
                },
            }
        };
        let ghost only = text::opt_text(filter);
        let ghost rows = self.grants.rows();
        let ghost mut keys: Seq<(Seq<char>, Seq<char>, Seq<char>)> = Seq::empty();
        let mut found: Vec<Grant> = Vec::new();
        let mut i: usize = 0;
        while i < self.grants.len()
            invariant
                self.wf(),
                rows == self.grants.rows(),
                only == text::opt_text(filter),
                i <= rows.len(),
                keys.no_duplicates(),
                found@.len() == keys.len(),
                forall|k: (Seq<char>, Seq<char>, Seq<char>)| #[trigger]
                    keys.contains(k) <==> (exists|j: int| 0 <= j < i && (#[trigger] rows[j]).0 == k)
                        && (only matches Some(r) ==> k.2 == r),
                forall|j: int|
                    0 <= j < keys.len() ==> (#[trigger] order::views(found@)[j])
                        == self@.listed_grant(keys[j]),
            decreases rows.len() - i,
        {
            proof {
                table::lemma_map_of(rows);
            }
            let key = self.grants.key_at(i);
            let role = self.grants.value_at(i);
            let ghost k = rows[i as int].0;
            let ghost before = keys;
            let ghost so_far = order::views(found@);
            assert(self@.grants.contains_key(k));
            let wanted = match &filter {
                Some(resource) => same(resource.as_str(), key.resource_id.as_str()),
                None => true,
            };
            if wanted {
                let grant = Grant {
                    id: String::new(),
                    subject_type: key.subject_type.clone(),
                    subject_id: key.subject_id.clone(),
                    repository_id: self.listed_repository(&key.resource_id),
                    role: role.clone(),
                };
                let ghost view = grant@;
                assert(view =~= self@.listed_grant(k));
                found.push(grant);
                assert(order::views(found@) =~= so_far.push(view));
                proof {
                    keys = keys.push(k);
                    if before.contains(k) {
                        let j = choose|j: int| 0 <= j < i && (#[trigger] rows[j]).0 == k;
                        assert(rows[j].0 == rows[i as int].0);
                    }
                }
            }
            proof {
                assert forall|x: (Seq<char>, Seq<char>, Seq<char>)| #[trigger]
                    keys.contains(x) <==> (exists|j: int|
                        0 <= j < i + 1 && (#[trigger] rows[j]).0 == x) && (only matches Some(r)
                        ==> x.2 == r) by {
                    if keys.contains(x) {
                        if before.contains(x) {
                            let j = choose|j: int| 0 <= j < i && (#[trigger] rows[j]).0 == x;
                            assert(rows[j].0 == x);
                        } else {
                            assert(rows[i as int].0 == x);
                        }
                    }
                    if (exists|j: int| 0 <= j < i + 1 && (#[trigger] rows[j]).0 == x) && (
                    only matches Some(r) ==> x.2 == r) {
                        let j = choose|j: int| 0 <= j < i + 1 && (#[trigger] rows[j]).0 == x;
                        if j < i {
                            assert(before.contains(x));
                            let y = choose|y: int| 0 <= y < before.len() && before[y] == x;
                            assert(keys[y] == x);
                        } else {
                            assert(keys[keys.len() - 1] == x);
                        }
                    }
                }
            }
            i += 1;
        }
        let ghost list = order::views(found@);
        let out = sort(found);
        proof {
            table::lemma_map_of(rows);
            assert(list =~= Seq::new(keys.len(), |j: int| self@.listed_grant(keys[j])));
            assert forall|k: (Seq<char>, Seq<char>, Seq<char>)| #[trigger]
                keys.contains(k) <==> self@.grants.contains_key(k) && (only matches Some(r) ==> k.2
                    == r) by {
                if self@.grants.contains_key(k) {
                    let j = table::row_of(rows, k);
                    assert(rows[j].0 == k);
                }
            }
            assert(keys.no_duplicates());
            assert(self@.lists_grants(only, order::views(out@)));
        }
        Ok(out)
    }
}

// ---------------------------------------------------------------------------
// Evidence
// ---------------------------------------------------------------------------

/// What a user is called in evidence: by address, or else by identifier.
pub open spec fn user_label(user: UserView) -> Seq<char> {
    if text::trimmed(user.email).len() == 0 {
        user.id
    } else {
        user.email
    }
}

impl StoreView {
    /// The edges over which evidence is looked for.
    pub open spec fn evidence_edges(self, nested: bool) -> Seq<(Seq<char>, Seq<char>)> {
        if nested {
            self.group_groups
        } else {
            Seq::empty()
        }
    }

    /// The grant to the user, if there is one.
    pub open spec fn own_evidence(self, user: Seq<char>, resource: Seq<char>) -> Seq<
        GrantEvidenceView,
    > {
        let k = ("user"@, user, resource);
        if self.grants.contains_key(k) {
            seq![
                GrantEvidenceView {
                    subject_type: "user"@,
                    subject_id: user,
                    subject_name: user_label(self.users[user]),
                    role: self.grants[k],
                    path: "user:"@ + user_label(self.users[user]) + " -> grant"@,
                },
            ]
        } else {
            seq![]
        }
    }

    /// The evidence up to the visit `n` of a walk through the groups of a user,
    /// in the order of the walk.
    pub open spec fn evidence(
        self,
        user: Seq<char>,
        resource: Seq<char>,
        v: Seq<(Seq<char>, Option<int>)>,
        labels: Seq<Seq<char>>,
        n: nat,
    ) -> Seq<GrantEvidenceView>
        decreases n,
    {
        if n == 0 {
            self.own_evidence(user, resource)
        } else {
            let before = self.evidence(user, resource, v, labels, (n - 1) as nat);
            let i = n - 1;
            let k = ("group"@, v[i].0, resource);
            if self.grants.contains_key(k) {
                before.push(
                    GrantEvidenceView {
                        subject_type: "group"@,
                        subject_id: v[i].0,
                        subject_name: labels[i],
                        role: self.grants[k],
                        path: "user:"@ + user_label(self.users[user]) + " -> "@ + walk::way(
                            v,
                            labels,
                            i,
                        ) + " -> grant"@,
                    },
                )
            } else {
                before
            }
        }
    }

    /// Whether `labels` are what the groups of a walk are called.
    pub open spec fn are_labels(
        self,
        v: Seq<(Seq<char>, Option<int>)>,
        labels: Seq<Seq<char>>,
    ) -> bool {
        &&& labels.len() == v.len()
        &&& forall|i: int| 0 <= i < v.len() ==> self.is_label(v[i].0, #[trigger] labels[i])
    }

    /// Whether `out` lists how a user comes by roles on a resource.
    pub open spec fn explains(
        self,
        user: Seq<char>,
        resource: Seq<char>,
        nested: bool,
        out: Seq<GrantEvidenceView>,
    ) -> bool {
        exists|v: Seq<(Seq<char>, Option<int>)>, labels: Seq<Seq<char>>|
            {
                &&& #[trigger] walk::is_walk(
                    self.direct_groups(user),
                    self.evidence_edges(nested),
                    v,
                )
                &&& #[trigger] self.are_labels(v, labels)
                &&& order::is_sorted_copy::<GrantEvidence>(
                    out,
                    self.evidence(user, resource, v, labels, v.len()),
                )
            }
    }

    /// Why there is no evidence to look for; none where there is.
    pub open spec fn evidence_refusal(self, user: Seq<char>, resource: Seq<char>) -> Option<
        CoreErrorView,
    > {
        match self.exact_resource(resource) {
            Err(e) => Some(e),
            Ok(_) => match self.user(user) {
                Err(e) => Some(e),
                Ok(_) => None,
            },
        }
    }
}

impl Store {
    fn grant_role_of(&self, kind: &str, subject_id: &str, resource_id: &str) -> (r: Option<String>)
        requires
            self.wf(),
        ensures
            match r {
                Some(role) => self@.grants.contains_key((kind@, subject_id@, resource_id@))
                    && self@.grants[(kind@, subject_id@, resource_id@)] == role@,
                None => !self@.grants.contains_key((kind@, subject_id@, resource_id@)),
            },
    {
        let key = GrantKey {
            subject_type: kind.to_owned(),
            subject_id: subject_id.to_owned(),
            resource_id: resource_id.to_owned(),
        };
        match self.grants.get(&key) {
            Some(role) => Some(role.clone()),
            None => None,
        }
    }

    /// How a user comes by roles on a repository: by grants to the user, and by
    /// grants to the groups that the user is in. Groups around those groups are
    /// looked at where `include_nested_groups` says so.
    pub fn grants_for_user_on_repository(
        &self,
        user_id: &str,
        resource_id: &str,
        include_nested_groups: bool,
    ) -> (r: Result<Vec<GrantEvidence>, CoreError>)
        requires
            self.wf(),
        ensures
            match r {
                Ok(out) => {
                    &&& self@.evidence_refusal(user_id@, resource_id@) is None
                    &&& self@.exact_resource(resource_id@) matches Ok(resource) && self@.explains(
                        user_id@,
                        resource,
                        include_nested_groups,
                        order::views(out@),
                    )
                },
                Err(e) => self@.evidence_refusal(user_id@, resource_id@) == Some(e@),
            },
    {
        let resource = match self.resolve_exact_resource_id(resource_id) {
            Ok(resource) => resource,
            Err(e) => {
                return Err(e);
            },
        };
        let user = match self.user_by_id(user_id) {
            Ok(user) => user,
            Err(e) => {
                return Err(e);
            },
        };
        let label = if is_blank(user.email.as_str()) {
            user.id.clone()
        } else {
            user.email.clone()
        };
        assert(label@ == user_label(self@.users[user_id@]));
        let mut found: Vec<GrantEvidence> = Vec::new();
        if let Some(role) = self.grant_role_of("user", user_id, resource.as_str()) {
            found.push(
                GrantEvidence {
                    subject_type: "user".to_owned(),
                    subject_id: user_id.to_owned(),
                    subject_name: label.clone(),
                    role,
                    path: cat3("user:", label.as_str(), " -> grant"),
                },
            );
        }
        assert(order::views(found@) =~= self@.own_evidence(user_id@, resource@));
        let direct = self.direct_group_ids_for_user(user_id);
        let visited = if include_nested_groups {
            walk::walk(&direct, &self.group_groups)
        } else {
            let no_edges: Vec<GroupEdge> = Vec::new();
            assert(nesting::edges_of(no_edges@) =~= Seq::<(Seq<char>, Seq<char>)>::empty());
            walk::walk(&direct, &no_edges)
        };
        let ghost v = walk::visits(visited@);
        let mut names: Vec<String> = Vec::new();
        let mut i: usize = 0;
        while i < visited.len()
            invariant
                self.wf(),
                v == walk::visits(visited@),
                i <= visited@.len(),
                names@.len() == i,
                forall|j: int| 0 <= j < i ==> self@.is_label(v[j].0, (#[trigger] names@[j])@),
            decreases visited@.len() - i,
        {
            names.push(self.group_label(visited[i].id.as_str()));
            i += 1;
        }
        let ways = describe(&visited, &names);
        let ghost labels = text::texts(names@);
        assert(self@.are_labels(v, labels)) by {
            assert forall|j: int| 0 <= j < v.len() implies self@.is_label(
                v[j].0,
                #[trigger] labels[j],
            ) by {
                assert(labels[j] == names@[j]@);
            }
        }
        assert(ways@.len() == text::texts(ways@).len());
        let mut n: usize = 0;
        while n < visited.len()
            invariant
                self.wf(),
                v == walk::visits(visited@),
                labels == text::texts(names@),
                text::texts(ways@) == walk::ways(v, labels),
                names@.len() == visited@.len(),
                ways@.len() == visited@.len(),
                n <= visited@.len(),
                label@ == user_label(self@.users[user_id@]),
                order::views(found@) == self@.evidence(user_id@, resource@, v, labels, n as nat),
            decreases visited@.len() - n,
        {
            let ghost before = order::views(found@);
            assert(v[n as int] == visited@[n as int]@);
            assert(text::texts(ways@)[n as int] == walk::way(v, labels, n as int));
            assert(ways@[n as int]@ == walk::way(v, labels, n as int));
            assert(labels[n as int] == names@[n as int]@);
            if let Some(role) = self.grant_role_of(
                "group",
                visited[n].id.as_str(),
                resource.as_str(),
            ) {
                let entry = GrantEvidence {
                    subject_type: "group".to_owned(),
                    subject_id: visited[n].id.clone(),
                    subject_name: names[n].clone(),
                    role,
                    path: cat5("user:", label.as_str(), " -> ", ways[n].as_str(), " -> grant"),
                };
                let ghost view = entry@;
                found.push(entry);
                assert(order::views(found@) =~= before.push(view));
            }
            n += 1;
        }
        let ghost list = order::views(found@);
        let out = sort(found);
        proof {
            assert(walk::is_walk(
                self@.direct_groups(user_id@),
                self@.evidence_edges(include_nested_groups),
                v,
            ));
            assert(order::is_sorted_copy::<GrantEvidence>(
                order::views(out@),
                self@.evidence(user_id@, resource@, v, labels, v.len()),
            ));
        }
        Ok(out)
    }
}

} // verus!
