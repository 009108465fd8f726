//! What groups, grants and repositories come to, from what was put in to what is
//! answered.

use vstd::prelude::*;

use crate::error::CoreErrorView;
use crate::memory::{grants, groups, StoreView};
use crate::model::{
    Grant, GrantView, GroupView, ResourcePermission, ResourcePermissionView, UserView,
};
use crate::nesting;
use crate::order;
use crate::resource_id;
use crate::roles;
use crate::roles::Permission;
use crate::text;

verus! {

proof fn lemma_user_is_no_group()
    ensures
        "user"@ != "group"@,
{
    reveal_strlit("user");
    reveal_strlit("group");
    assert("user"@.len() == 4);
    assert("group"@.len() == 5);
}

// ---------------------------------------------------------------------------
// Groups
// ---------------------------------------------------------------------------

/// A group has the name that was given, without whitespace around it, and the
/// description. It is found by its identifier and, as long as no group has its name for
/// an identifier, by its name; other groups stay as they are.
pub proof fn law_group_is_found(
    s: StoreView,
    name: Seq<char>,
    description: Seq<char>,
    id: Seq<char>,
    other: Seq<char>,
)
    requires
        other != text::trimmed(name),
    ensures
        ({
            let group = groups::new_group(name, description, id);
            let after = s.with_group(group);
            &&& groups::group_refusal(name) is Some <==> text::trimmed(name).len() == 0
            &&& group.id == id
            &&& group.name == text::trimmed(name)
            &&& group.description == description
            &&& after.groups.contains_key(text::trimmed(name))
            &&& after.groups[text::trimmed(name)] == group
            &&& after.groups.contains_key(other) <==> s.groups.contains_key(other)
            &&& after.groups[other] == s.groups[other]
            &&& after.group_id(id) == Ok::<_, CoreErrorView>(id)
            &&& !after.has_group_id(text::trimmed(name)) ==> after.group_id(text::trimmed(name))
                == Ok::<_, CoreErrorView>(id)
            &&& after.users == s.users
            &&& after.grants == s.grants
            &&& after.group_members == s.group_members
            &&& after.group_groups == s.group_groups
        }),
{
    let after = s.with_group(groups::new_group(name, description, id));
    assert(after.groups.contains_key(text::trimmed(name)));
    assert(after.has_group_id(id));
}

/// A group is meant by its identifier, or else by its name.
pub proof fn law_group_is_meant_by_identifier_or_name(s: StoreView, n: Seq<char>, who: Seq<char>)
    requires
        s.groups.contains_key(n),
    ensures
        s.group_id(s.groups[n].id) == Ok::<_, CoreErrorView>(s.groups[n].id),
        (forall|m: Seq<char>| #[trigger] s.groups.contains_key(m) ==> s.groups[m].id != n)
            ==> s.group_id(n) == Ok::<_, CoreErrorView>(s.groups[n].id),
        (forall|m: Seq<char>| #[trigger]
            s.groups.contains_key(m) ==> s.groups[m].id != who && m != who) ==> s.group_id(who)
            == Err::<Seq<char>, _>(CoreErrorView::NotFound),
{
    assert(s.has_group_id(s.groups[n].id));
}

/// A user who is put into a group is in it, and in what it is in, directly or through
/// other groups; nobody else is moved.
pub proof fn law_member_belongs_to_the_group_and_those_around(
    s: StoreView,
    user: Seq<char>,
    group: Seq<char>,
    id: Seq<char>,
    around: Seq<char>,
    other: Seq<char>,
)
    requires
        s.group_id(group) == Ok::<_, CoreErrorView>(id),
        nesting::inside(s.group_groups, id, around),
        other != user,
    ensures
        ({
            let after = s.with_member(user, group);
            &&& after.member_list(user) == s.member_list(user).push(group)
            &&& after.member_list(other) == s.member_list(other)
            &&& after.belongs(user, id)
            &&& after.belongs(user, around)
            &&& after.groups == s.groups
            &&& after.grants == s.grants
            &&& after.users == s.users
        }),
{
    let after = s.with_member(user, group);
    let list = s.member_list(user);
    assert(after.member_list(user) == list.push(group));
    assert(list.push(group).drop_last() =~= list);
    assert(list.push(group).last() == group);
    assert(after.group_id(group) == s.group_id(group)) by {
        assert(after.has_group_id(group) == s.has_group_id(group)) by {
            assert(after.groups == s.groups);
        }
    }
    let direct = after.direct_groups(user);
    assert(direct == after.group_ids(list).push(id));
    assert(direct[direct.len() - 1] == id);
    assert(direct.contains(id));
    nesting::lemma_inside_reflexive(s.group_groups, id);
    assert(nesting::inside(after.group_groups, id, id));
    assert(nesting::inside(after.group_groups, id, around));
}

/// The groups that a user is directly in are those of the list that there are.
pub proof fn law_direct_groups_are_those_of_the_list(
    s: StoreView,
    named: Seq<Seq<char>>,
    id: Seq<char>,
)
    ensures
        s.group_ids(named).contains(id) <==> exists|i: int|
            0 <= i < named.len() && s.group_id(#[trigger] named[i]) == Ok::<_, CoreErrorView>(id),
    decreases named.len(),
{
    if named.len() > 0 {
        let front = named.drop_last();
        let before = s.group_ids(front);
        law_direct_groups_are_those_of_the_list(s, front, id);
        assert forall|i: int| 0 <= i < front.len() implies front[i] == #[trigger] named[i] by {}
        assert(forall|i: int| 0 <= i < front.len() ==> named[i] == #[trigger] front[i]);
        assert(named.last() == named[named.len() - 1]);
        if let Ok(last) = s.group_id(named.last()) {
            let longer = before.push(last);
            assert(longer.contains(id) <==> before.contains(id) || id == last) by {
                if longer.contains(id) {
                    let i = choose|i: int| 0 <= i < longer.len() && longer[i] == id;
                    if i < before.len() {
                        assert(before[i] == id);
                    }
                }
                if before.contains(id) {
                    let i = choose|i: int| 0 <= i < before.len() && before[i] == id;
                    assert(longer[i] == id);
                }
                assert(longer[before.len() as int] == last);
            }
        }
    }
}

/// A user who is taken out of a group is not on its list any more, and stays on all
/// others; nobody else is moved.
pub proof fn law_member_is_taken_out(
    s: StoreView,
    user: Seq<char>,
    group: Seq<char>,
    other_group: Seq<char>,
    other: Seq<char>,
)
    requires
        other != user,
        other_group != group,
    ensures
        ({
            let after = s.without_member(user, group);
            &&& !after.member_list(user).contains(group)
            &&& after.member_list(user).contains(other_group) <==> s.member_list(user).contains(
                other_group,
            )
            &&& after.member_list(other) == s.member_list(other)
            &&& after.groups == s.groups
            &&& after.grants == s.grants
            &&& after.users == s.users
        }),
{
    text::law_without_takes_out_one_text(s.member_list(user), group, group);
}

/// The members of a group are the users who were put into it, by its identifier or its
/// name, and are not deleted.
pub proof fn law_members_are_who_was_put_in(s: StoreView, n: Seq<char>, u: UserView)
    ensures
        s.members(n).contains(u) <==> {
            &&& s.users.contains_key(u.id)
            &&& s.users[u.id] == u
            &&& u.status != "deleted"@
            &&& s.member_list(u.id).contains(s.groups[n].id) || s.member_list(u.id).contains(
                s.groups[n].name,
            )
        },
        s.all_groups().contains(s.groups[n]) <==> s.groups.contains_key(s.groups[n].name)
            && s.groups[s.groups[n].name] == s.groups[n],
{
}

/// A group is put into another exactly once. That is refused where either is not there,
/// where they are the same, and where the outer is inside the inner already, unless the
/// inner is directly in the outer as it is.
pub proof fn law_group_is_put_into_another(
    s: StoreView,
    parent: Seq<char>,
    member: Seq<char>,
    p: Seq<char>,
    m: Seq<char>,
)
    requires
        s.group_id(parent) == Ok::<_, CoreErrorView>(p),
        s.group_id(member) == Ok::<_, CoreErrorView>(m),
    ensures
        s.nesting_refusal(parent, member) is None <==> p != m && (s.group_groups.contains((m, p))
            || !nesting::inside(s.group_groups, p, m)),
        s.after_nesting(parent, member).group_groups.contains((m, p)),
        nesting::inside(s.after_nesting(parent, member).group_groups, m, p),
        s.group_groups.contains((m, p)) ==> s.after_nesting(parent, member) == s,
        !s.group_groups.contains((m, p)) ==> s.after_nesting(parent, member).group_groups
            == s.group_groups.push((m, p)),
        s.after_nesting(parent, member).groups == s.groups,
        s.after_nesting(parent, member).grants == s.grants,
        s.after_nesting(parent, member).group_members == s.group_members,
{
    let after = s.after_nesting(parent, member);
    if !s.group_groups.contains((m, p)) {
        assert(after.group_groups[s.group_groups.len() as int] == (m, p));
    }
    assert(after.group_groups.contains((m, p)));
    nesting::lemma_edge_is_inside(after.group_groups, m, p);
}

/// Groups that are not there cannot be put into each other.
pub proof fn law_only_groups_are_nested(s: StoreView, parent: Seq<char>, member: Seq<char>)
    requires
        s.group_id(parent) is Err || s.group_id(member) is Err,
    ensures
        s.nesting_refusal(parent, member) == Some(CoreErrorView::NotFound),
        s.after_nesting(parent, member) == s,
        !s.is_nested(parent, member),
{
}

/// A group that is taken out of another is not directly in it any more, where it was put
/// in once, and nothing else is taken out.
pub proof fn law_group_is_taken_out_of_another(
    s: StoreView,
    parent: Seq<char>,
    member: Seq<char>,
    p: Seq<char>,
    m: Seq<char>,
    after: StoreView,
    e: (Seq<char>, Seq<char>),
)
    requires
        s.group_groups.no_duplicates(),
        s.group_id(parent) == Ok::<_, CoreErrorView>(p),
        s.group_id(member) == Ok::<_, CoreErrorView>(m),
        s.is_after_unnesting(parent, member, after),
    ensures
        s.group_groups.contains((m, p)),
        !after.group_groups.contains((m, p)),
        e != (m, p) ==> (after.group_groups.contains(e) <==> s.group_groups.contains(e)),
        after.groups == s.groups,
        after.group_members == s.group_members,
        after.grants == s.grants,
{
    let at = choose|at: int|
        0 <= at < s.group_groups.len() && s.nested_pair(parent, member) == Ok::<
            (Seq<char>, Seq<char>),
            CoreErrorView,
        >(#[trigger] s.group_groups[at]) && after == (StoreView {
            group_groups: s.group_groups.remove(at),
            ..s
        });
    let all = s.group_groups;
    let left = all.remove(at);
    assert(all[at] == (m, p));
    if left.contains((m, p)) {
        let i = choose|i: int| 0 <= i < left.len() && left[i] == (m, p);
        if i < at {
            assert(all[i] == (m, p));
        } else {
            assert(all[i + 1] == (m, p));
        }
    }
    if left.contains(e) {
        let i = choose|i: int| 0 <= i < left.len() && left[i] == e;
        if i < at {
            assert(all[i] == e);
        } else {
            assert(all[i + 1] == e);
        }
    }
    if e != (m, p) && all.contains(e) {
        let i = choose|i: int| 0 <= i < all.len() && all[i] == e;
        if i < at {
            assert(left[i] == e);
        } else {
            assert(left[i - 1] == e);
        }
    }
}

/// The groups that are listed as inside another are those that were put into it, by name,
/// each once.
pub proof fn law_nested_groups_are_listed(
    s: StoreView,
    id: Seq<char>,
    out: Seq<GroupView>,
    n: Seq<char>,
)
    requires
        s.lists_nested(id, out),
        s.groups.contains_key(n),
    ensures
        s.group_groups.contains((s.groups[n].id, id)) <==> exists|i: int|
            0 <= i < out.len() && (#[trigger] out[i]).id == s.groups[n].id,
        forall|i: int|
            0 <= i < out.len() ==> s.groups.contains_key((#[trigger] out[i]).name)
                && s.groups[out[i].name] == out[i],
        forall|i: int, j: int|
            0 <= i < j < out.len() ==> (#[trigger] out[i]).id != (#[trigger] out[j]).id,
{
    let m = s.groups[n].id;
    assert(s.has_group_id(m));
    if exists|i: int| 0 <= i < out.len() && (#[trigger] out[i]).id == m {
        let i = choose|i: int| 0 <= i < out.len() && (#[trigger] out[i]).id == m;
        assert(s.group_groups.contains((out[i].id, id)));
    }
    assert forall|i: int| 0 <= i < out.len() implies s.groups.contains_key(
        (#[trigger] out[i]).name,
    ) && s.groups[out[i].name] == out[i] by {
        assert(s.all_groups().contains(out[i]));
    }
}

// ---------------------------------------------------------------------------
// Grants
// ---------------------------------------------------------------------------

/// A user may do something with a resource exactly if a grant on it is to the user, or to
/// a group that the user belongs to, with a role that allows it: `reader` to read,
/// `writer` to read and write, `admin` to read, write and administer.
pub proof fn law_access_is_by_the_roles_granted(
    s: StoreView,
    user: Seq<char>,
    resource: Seq<char>,
    action: Seq<char>,
)
    ensures
        s.may(user, resource, action) <==> exists|kind: Seq<char>, subject: Seq<char>|
            {
                &&& #[trigger] s.grants.contains_key((kind, subject, resource))
                &&& {
                    ||| kind == "user"@ && subject == user
                    ||| kind == "group"@ && nesting::reached(
                        s.group_groups,
                        s.direct_groups(user),
                        subject,
                    )
                }
                &&& {
                    let role = s.grants[(kind, subject, resource)];
                    ||| action == "read"@ && (role == "reader"@ || role == "writer"@ || role
                        == "admin"@)
                    ||| action == "write"@ && (role == "writer"@ || role == "admin"@)
                    ||| action == "admin"@ && role == "admin"@
                }
            },
{
    assert forall|kind: Seq<char>, subject: Seq<char>| #[trigger]
        s.grants.contains_key((kind, subject, resource)) implies roles::allows(
        s.grants[(kind, subject, resource)],
        action,
    ) == ({
        let role = s.grants[(kind, subject, resource)];
        ||| action == "read"@ && (role == "reader"@ || role == "writer"@ || role == "admin"@)
        ||| action == "write"@ && (role == "writer"@ || role == "admin"@)
        ||| action == "admin"@ && role == "admin"@
    }) by {
        roles::law_what_each_role_permits(s.grants[(kind, subject, resource)], action);
    }
}

proof fn lemma_by_name(set: Set<Permission>, p: Permission)
    ensures
        grants::by_name(set).contains(p) <==> set.contains(p),
        grants::by_name(set).no_duplicates(),
{
    let l = grants::by_name(set);
    if set.contains(p) {
        let a: int = if set.contains(Permission::Admin) { 1 } else { 0 };
        let r: int = if set.contains(Permission::Read) { 1 } else { 0 };
        let at = match p {
            Permission::Admin => 0int,
            Permission::Read => a,
            Permission::Write => a + r,
        };
        assert(l[at] == p);
    }
}

/// What a user may do with a resource in a listing unites all grants on it that reach the
/// user. It has a permission exactly if some grant on the resource, to the user or to a
/// group that the user belongs to, has a role that gives it: `reader` gives `Read`,
/// `writer` gives `Write` as well, and `admin` gives all three.
pub proof fn law_listing_unites_the_grants(
    s: StoreView,
    user: Seq<char>,
    prefix: Seq<char>,
    out: Seq<ResourcePermissionView>,
    i: int,
)
    requires
        order::is_listing::<ResourcePermission>(out, s.accessible(user, prefix)),
        0 <= i < out.len(),
    ensures
        prefix.len() == 0 || text::has_prefix(out[i].resource_id, prefix),
        out[i].permission.no_duplicates(),
        out[i].permission.contains(Permission::Read) <==> exists|kind: Seq<char>, who: Seq<char>|
            {
                &&& #[trigger] s.grants.contains_key((kind, who, out[i].resource_id))
                &&& kind == "user"@ && who == user || kind == "group"@ && s.belongs(user, who)
                &&& s.grants[(kind, who, out[i].resource_id)] == "reader"@
                    || s.grants[(kind, who, out[i].resource_id)] == "writer"@
                    || s.grants[(kind, who, out[i].resource_id)] == "admin"@
            },
        out[i].permission.contains(Permission::Write) <==> exists|kind: Seq<char>, who: Seq<char>|
            {
                &&& #[trigger] s.grants.contains_key((kind, who, out[i].resource_id))
                &&& kind == "user"@ && who == user || kind == "group"@ && s.belongs(user, who)
                &&& s.grants[(kind, who, out[i].resource_id)] == "writer"@
                    || s.grants[(kind, who, out[i].resource_id)] == "admin"@
            },
        out[i].permission.contains(Permission::Admin) <==> exists|kind: Seq<char>, who: Seq<char>|
            {
                &&& #[trigger] s.grants.contains_key((kind, who, out[i].resource_id))
                &&& kind == "user"@ && who == user || kind == "group"@ && s.belongs(user, who)
                &&& s.grants[(kind, who, out[i].resource_id)] == "admin"@
            },
{
    let resource = out[i].resource_id;
    assert(out.to_set().contains(out[i]));
    assert(s.accessible(user, prefix).contains(out[i]));
    let any = choose|k: (Seq<char>, Seq<char>, Seq<char>)| #[trigger]
        s.counts(k, user, prefix) && k.2 == resource;
    assert(s.counts(any, user, prefix));
    let set = Set::new(|p: Permission| s.has_permission(user, prefix, resource, p));
    assert(out[i].permission == grants::by_name(set));
    lemma_by_name(set, Permission::Read);
    lemma_by_name(set, Permission::Write);
    lemma_by_name(set, Permission::Admin);
    assert forall|k: (Seq<char>, Seq<char>, Seq<char>)| #[trigger]
        s.counts(k, user, prefix) && k.2 == resource implies {
        &&& s.grants.contains_key((k.0, k.1, resource))
        &&& grants::role_gives(s.grants[k], Permission::Read) <==> s.grants[k] == "reader"@
            || s.grants[k] == "writer"@ || s.grants[k] == "admin"@
        &&& grants::role_gives(s.grants[k], Permission::Write) <==> s.grants[k] == "writer"@
            || s.grants[k] == "admin"@
        &&& grants::role_gives(s.grants[k], Permission::Admin) <==> s.grants[k] == "admin"@
    } by {
        assert(k == (k.0, k.1, resource));
        roles::law_what_each_role_permits(s.grants[k], Seq::empty());
    }
    assert forall|kind: Seq<char>, who: Seq<char>|
        #[trigger] s.grants.contains_key((kind, who, resource)) && (kind == "user"@ && who == user
            || kind == "group"@ && s.belongs(user, who)) implies s.counts(
        (kind, who, resource),
        user,
        prefix,
    ) by {}
}

/// A listing names each resource with the prefix on which some grant reaches the user,
/// once, and no other.
pub proof fn law_listing_names_what_is_granted(
    s: StoreView,
    user: Seq<char>,
    prefix: Seq<char>,
    out: Seq<ResourcePermissionView>,
    resource: Seq<char>,
)
    requires
        order::is_listing::<ResourcePermission>(out, s.accessible(user, prefix)),
    ensures
        (exists|i: int| 0 <= i < out.len() && (#[trigger] out[i]).resource_id == resource) <==> {
            &&& prefix.len() == 0 || text::has_prefix(resource, prefix)
            &&& exists|kind: Seq<char>, who: Seq<char>|
                {
                    &&& #[trigger] s.grants.contains_key((kind, who, resource))
                    &&& kind == "user"@ && who == user || kind == "group"@ && s.belongs(user, who)
                }
        },
        forall|i: int, j: int|
            0 <= i < j < out.len() ==> (#[trigger] out[i]).resource_id != (
            #[trigger] out[j]).resource_id,
{
    let all = s.accessible(user, prefix);
    assert forall|i: int| 0 <= i < out.len() implies all.contains(#[trigger] out[i]) by {
        assert(out.to_set().contains(out[i]));
    }
    if exists|i: int| 0 <= i < out.len() && (#[trigger] out[i]).resource_id == resource {
        let i = choose|i: int| 0 <= i < out.len() && (#[trigger] out[i]).resource_id == resource;
        assert(all.contains(out[i]));
        let k = choose|k: (Seq<char>, Seq<char>, Seq<char>)| #[trigger]
            s.counts(k, user, prefix) && k.2 == resource;
        assert(k == (k.0, k.1, resource));
        assert(s.grants.contains_key((k.0, k.1, resource)));
    }
    if (prefix.len() == 0 || text::has_prefix(resource, prefix)) && exists|
        kind: Seq<char>,
        who: Seq<char>,
    |
        {
            &&& #[trigger] s.grants.contains_key((kind, who, resource))
            &&& kind == "user"@ && who == user || kind == "group"@ && s.belongs(user, who)
        } {
        let (kind, who) = choose|kind: Seq<char>, who: Seq<char>|
            {
                &&& #[trigger] s.grants.contains_key((kind, who, resource))
                &&& kind == "user"@ && who == user || kind == "group"@ && s.belongs(user, who)
            };
        assert(s.counts((kind, who, resource), user, prefix));
        let e = ResourcePermissionView {
            resource_id: resource,
            permission: grants::by_name(
                Set::new(|p: Permission| s.has_permission(user, prefix, resource, p)),
            ),
        };
        assert(all.contains(e));
        assert(out.to_set().contains(e));
        let i = choose|i: int| 0 <= i < out.len() && out[i] == e;
        assert(out[i].resource_id == resource);
    }
    assert forall|i: int, j: int| 0 <= i < j < out.len() implies (#[trigger] out[i]).resource_id
        != (#[trigger] out[j]).resource_id by {
        assert(all.contains(out[i]));
        assert(all.contains(out[j]));
        if out[i].resource_id == out[j].resource_id {
            assert(out[i] == out[j]);
        }
    }
}

/// A role that is given is there afterwards, for whom it was given, on a repository of
/// that name; a role that is taken away is not; and no other grant changes.
pub proof fn law_role_is_given_and_taken(
    s: StoreView,
    kind: Seq<char>,
    id: Seq<char>,
    repo: Seq<char>,
    role: Seq<char>,
    given: StoreView,
    taken: StoreView,
)
    requires
        s.is_after_grant(kind, id, repo, role, given),
        s.is_after_revoke(kind, id, repo, taken),
    ensures
        exists|k: Seq<char>|
            {
                &&& #[trigger] s.resources.contains_key(k)
                &&& s.resources[k].name == text::trimmed(repo)
                &&& s.resources[k].status != "deleted"@
                &&& given.grants.contains_key((kind, id, k))
                &&& given.grants[(kind, id, k)] == role
                &&& forall|other: (Seq<char>, Seq<char>, Seq<char>)|
                    other != (kind, id, k) ==> (#[trigger] given.grants.contains_key(other)
                        <==> s.grants.contains_key(other)) && given.grants[other] == s.grants[other]
            },
        exists|k: Seq<char>|
            {
                &&& #[trigger] s.resources.contains_key(k)
                &&& s.resources[k].name == text::trimmed(repo)
                &&& s.resources[k].status != "deleted"@
                &&& !taken.grants.contains_key((kind, id, k))
                &&& forall|other: (Seq<char>, Seq<char>, Seq<char>)|
                    other != (kind, id, k) ==> (#[trigger] taken.grants.contains_key(other)
                        <==> s.grants.contains_key(other)) && taken.grants[other] == s.grants[other]
            },
        given.users == s.users && given.groups == s.groups && given.resources == s.resources,
        taken.users == s.users && taken.groups == s.groups && taken.resources == s.resources,
{
    let k = choose|k: Seq<char>| #[trigger]
        s.is_repository(k, text::trimmed(repo)) && given == s.with_grant(kind, id, k, role);
    assert(s.resources.contains_key(k));
    let j = choose|j: Seq<char>| #[trigger]
        s.is_repository(j, text::trimmed(repo)) && taken == s.without_grant(kind, id, j);
    assert(s.resources.contains_key(j));
}

/// A role can be given exactly if it is `reader`, `writer` or `admin`, to a user or a
/// group that is there, on a repository that is there; it can be taken away under the
/// same conditions but for the role.
pub proof fn law_when_a_role_can_be_given(
    s: StoreView,
    kind: Seq<char>,
    subject: Seq<char>,
    repo: Seq<char>,
    role: Seq<char>,
)
    ensures
        s.grant_refusal(kind, subject, repo, role) is None <==> (role == "reader"@ || role
            == "writer"@ || role == "admin"@) && s.revoke_refusal(kind, subject, repo) is None,
        s.revoke_refusal(kind, subject, repo) is None <==> {
            &&& kind == "user"@ && (exists|k: Seq<char>| #[trigger]
                s.users.contains_key(k) && (k == subject || s.users[k].email == subject)) || kind
                == "group"@ && (exists|n: Seq<char>| #[trigger]
                s.groups.contains_key(n) && (n == subject || s.groups[n].id == subject))
            &&& text::trimmed(repo).len() > 0
            &&& exists|k: Seq<char>| #[trigger]
                s.resources.contains_key(k) && s.resources[k].status != "deleted"@
                    && s.resources[k].name == text::trimmed(repo)
        },
{
    roles::law_what_each_role_permits(role, Seq::empty());
    lemma_user_is_no_group();
    assert forall|k: Seq<char>| #[trigger] s.users.contains_key(k) && (k == subject
        || s.users[k].email == subject) implies s.is_user(k, subject) by {}
    assert forall|k: Seq<char>| s.is_user(k, subject) implies #[trigger] s.users.contains_key(k) && (
    k == subject || s.users[k].email == subject) by {}
    let name = text::trimmed(repo);
    assert forall|k: Seq<char>| #[trigger] s.resources.contains_key(k) && s.resources[k].status
        != "deleted"@ && s.resources[k].name == name implies s.is_repository(k, name) by {}
    if s.has_user(subject) {
        let k = choose|k: Seq<char>| s.is_user(k, subject);
        assert(s.users.contains_key(k));
    }
    if s.has_repository(name) {
        let k = choose|k: Seq<char>| s.is_repository(k, name);
        assert(s.resources.contains_key(k));
    }
}

/// A grant in a listing names to whom it is, with which role, and the repository by its
/// own identifier, or else by that of its resource. A listing has each grant on the
/// resource that is asked for, or every grant where none is, as often as it is there.
pub proof fn law_listed_grants_are_the_grants(
    s: StoreView,
    resource: Option<Seq<char>>,
    out: Seq<GrantView>,
    g: GrantView,
)
    requires
        s.lists_grants(resource, out),
    ensures
        out.contains(g) <==> exists|k: (Seq<char>, Seq<char>, Seq<char>)|
            {
                &&& #[trigger] s.grants.contains_key(k)
                &&& resource matches Some(r) ==> k.2 == r
                &&& g.id.len() == 0
                &&& g.subject_type == k.0
                &&& g.subject_id == k.1
                &&& g.role == s.grants[k]
                &&& s.resources.contains_key(k.2) && s.resources[k.2].id.len() > 0
                    ==> g.repository_id == s.resources[k.2].id
                &&& !(s.resources.contains_key(k.2) && s.resources[k.2].id.len() > 0)
                    ==> g.repository_id == resource_id::repository_of(k.2)
            },
{
    let keys = choose|keys: Seq<(Seq<char>, Seq<char>, Seq<char>)>|
        {
            &&& #[trigger] keys.no_duplicates()
            &&& forall|k: (Seq<char>, Seq<char>, Seq<char>)| #[trigger]
                keys.contains(k) <==> s.grants.contains_key(k) && (resource matches Some(r) ==> k.2
                    == r)
            &&& order::is_sorted_copy::<Grant>(
                out,
                Seq::new(keys.len(), |i: int| s.listed_grant(keys[i])),
            )
        };
    let all = Seq::new(keys.len(), |i: int| s.listed_grant(keys[i]));
    order::lemma_sorted_copy::<Grant>(out, all);
    if all.contains(g) {
        let i = choose|i: int| 0 <= i < all.len() && all[i] == g;
        assert(keys.contains(keys[i]));
        assert(s.grants.contains_key(keys[i]));
    }
    assert forall|k: (Seq<char>, Seq<char>, Seq<char>)|
        {
            &&& #[trigger] s.grants.contains_key(k)
            &&& resource matches Some(r) ==> k.2 == r
            &&& g.id.len() == 0
            &&& g.subject_type == k.0
            &&& g.subject_id == k.1
            &&& g.role == s.grants[k]
            &&& s.resources.contains_key(k.2) && s.resources[k.2].id.len() > 0 ==> g.repository_id
                == s.resources[k.2].id
            &&& !(s.resources.contains_key(k.2) && s.resources[k.2].id.len() > 0)
                ==> g.repository_id == resource_id::repository_of(k.2)
        } implies all.contains(g) by {
        assert(keys.contains(k));
        let i = choose|i: int| 0 <= i < keys.len() && keys[i] == k;
        assert(g =~= s.listed_grant(k));
        assert(all[i] == g);
    }
}

/// A resource is found by the identifier of its repository, with or without `urc-` before
/// it and whitespace around it, as long as it is there and not deleted.
pub proof fn law_resource_is_found_by_its_repository(
    s: StoreView,
    asked: Seq<char>,
    id: Seq<char>,
)
    requires
        resource_id::is_repository_id(id),
        !text::has_prefix(id, "urc-"@),
        text::trimmed(asked) == id || text::trimmed(asked) == "urc-"@ + id,
    ensures
        s.resources.contains_key("urc-"@ + id) && s.resources["urc-"@ + id].status != "deleted"@
            ==> s.exact_resource(asked) == Ok::<_, CoreErrorView>("urc-"@ + id),
        !s.resources.contains_key("urc-"@ + id) || s.resources["urc-"@ + id].status == "deleted"@
            ==> s.exact_resource(asked) == Err::<Seq<char>, _>(CoreErrorView::NotFound),
{
    resource_id::law_resource_stands_for_its_repository(id);
    resource_id::lemma_repository_id_is_trimmed(id);
}

/// A grant to a user is evidence that names the user by address, or else by identifier.
pub proof fn law_own_grant_is_evidence(s: StoreView, user: Seq<char>, resource: Seq<char>)
    ensures
        s.grants.contains_key(("user"@, user, resource)) ==> {
            let e = s.own_evidence(user, resource);
            let address = s.users[user].email;
            let label = if text::trimmed(address).len() > 0 {
                address
            } else {
                s.users[user].id
            };
            &&& e.len() == 1
            &&& e[0].subject_type == "user"@
            &&& e[0].subject_id == user
            &&& e[0].subject_name == label
            &&& e[0].role == s.grants[("user"@, user, resource)]
            &&& e[0].path == "user:"@ + label + " -> grant"@
        },
        !s.grants.contains_key(("user"@, user, resource)) ==> s.own_evidence(user, resource).len()
            == 0,
{
}

/// Evidence through groups is one piece for each visited group that has a grant, naming
/// the group, its role and the way to it, after what is granted to the user.
pub proof fn law_group_grant_is_evidence(
    s: StoreView,
    user: Seq<char>,
    resource: Seq<char>,
    v: Seq<(Seq<char>, Option<int>)>,
    labels: Seq<Seq<char>>,
    n: nat,
)
    requires
        n < v.len(),
    ensures
        ({
            let before = s.evidence(user, resource, v, labels, n);
            let after = s.evidence(user, resource, v, labels, n + 1);
            let k = ("group"@, v[n as int].0, resource);
            let label = if text::trimmed(s.users[user].email).len() > 0 {
                s.users[user].email
            } else {
                s.users[user].id
            };
            &&& s.evidence(user, resource, v, labels, 0) == s.own_evidence(user, resource)
            &&& !s.grants.contains_key(k) ==> after == before
            &&& s.grants.contains_key(k) ==> {
                &&& after.len() == before.len() + 1
                &&& after.drop_last() == before
                &&& after.last().subject_type == "group"@
                &&& after.last().subject_id == v[n as int].0
                &&& after.last().subject_name == labels[n as int]
                &&& after.last().role == s.grants[k]
                &&& after.last().path == "user:"@ + label + " -> "@ + crate::walk::way(
                    v,
                    labels,
                    n as int,
                ) + " -> grant"@
            }
        }),
{
    let before = s.evidence(user, resource, v, labels, n);
    let after = s.evidence(user, resource, v, labels, n + 1);
    if s.grants.contains_key(("group"@, v[n as int].0, resource)) {
        assert(after.drop_last() =~= before);
    }
}

/// A listing fails exactly if some grant that reaches the user, on a resource with the
/// prefix, has a role that is not `reader`, `writer` or `admin`.
pub proof fn law_odd_grant_has_an_unknown_role(
    s: StoreView,
    k: (Seq<char>, Seq<char>, Seq<char>),
    user: Seq<char>,
    prefix: Seq<char>,
)
    ensures
        s.is_odd_grant(k, user, prefix) <==> {
            &&& s.grants.contains_key(k)
            &&& k.0 == "user"@ && k.1 == user || k.0 == "group"@ && s.belongs(user, k.1)
            &&& prefix.len() == 0 || text::has_prefix(k.2, prefix)
            &&& s.grants[k] != "reader"@ && s.grants[k] != "writer"@ && s.grants[k] != "admin"@
        },
{
    roles::law_what_each_role_permits(s.grants[k], Seq::empty());
}

/// A grant is to the user with the identifier or the address that is given, or to the
/// group that is meant, and to nobody else.
pub proof fn law_who_is_meant_by_a_grant(
    s: StoreView,
    kind: Seq<char>,
    subject: Seq<char>,
    id: Seq<char>,
)
    ensures
        kind == "user"@ ==> (s.is_subject(kind, subject, id) <==> s.users.contains_key(id) && (id
            == subject || s.users[id].email == subject)),
        kind == "group"@ ==> (s.is_subject(kind, subject, id) <==> s.group_id(subject) == Ok::<
            _,
            CoreErrorView,
        >(id)),
        kind != "user"@ && kind != "group"@ ==> !s.is_subject(kind, subject, id)
            && s.subject_refusal(kind, subject) is Some,
        s.is_subject(kind, subject, id) ==> s.subject_refusal(kind, subject) is None,
{
    lemma_user_is_no_group();
    if kind == "user"@ && s.is_subject(kind, subject, id) {
        assert(s.is_user(id, subject));
    }
}

/// A group is called by its name where there is one with the identifier, and by the
/// identifier where there is none. It is meant by its identifier, or else by its name.
pub proof fn law_what_a_group_is_called(
    s: StoreView,
    id: Seq<char>,
    label: Seq<char>,
    n: Seq<char>,
    group: Seq<char>,
)
    ensures
        s.is_label(id, label) && s.groups.contains_key(n) && s.groups[n].id == id
            ==> s.groups.contains_key(label) && s.groups[label].id == id,
        s.is_label(id, label) && (forall|m: Seq<char>| #[trigger]
            s.groups.contains_key(m) ==> s.groups[m].id != id) ==> label == id,
        s.is_group(n, group) ==> s.groups.contains_key(n) && (s.groups[n].id == group || n
            == group),
        s.is_group(n, group) ==> s.group_id(group) == Ok::<_, CoreErrorView>(s.groups[n].id),
{
    if s.groups.contains_key(n) {
        assert(s.has_group_id(s.groups[n].id));
    }
}

/// There is evidence to look for exactly if the repository is there and not deleted, and
/// the user as well.
pub proof fn law_when_evidence_is_looked_for(
    s: StoreView,
    user: Seq<char>,
    asked: Seq<char>,
    id: Seq<char>,
)
    requires
        resource_id::is_repository_id(id),
        !text::has_prefix(id, "urc-"@),
        text::trimmed(asked) == id || text::trimmed(asked) == "urc-"@ + id,
    ensures
        s.evidence_refusal(user, asked) is None <==> {
            &&& s.resources.contains_key("urc-"@ + id)
            &&& s.resources["urc-"@ + id].status != "deleted"@
            &&& s.users.contains_key(user)
            &&& s.users[user].status != "deleted"@
        },
        s.evidence_refusal(user, asked) is Some ==> s.evidence_refusal(user, asked) == Some(
            CoreErrorView::NotFound,
        ),
{
    law_resource_is_found_by_its_repository(s, asked, id);
}

/// A recorded change adds one record, of who did what to what, and changes nothing else.
pub proof fn law_record_is_added(
    s: StoreView,
    actor: Seq<char>,
    action: Seq<char>,
    object_type: Seq<char>,
    object_id: Seq<char>,
    detail: Seq<char>,
    after: StoreView,
)
    requires
        s.recorded(actor, action, object_type, object_id, detail, after),
    ensures
        after.admin_audit.len() == s.admin_audit.len() + 1,
        forall|i: int|
            0 <= i < s.admin_audit.len() ==> #[trigger] after.admin_audit[i] == s.admin_audit[i],
        ({
            let e = after.admin_audit[s.admin_audit.len() as int];
            &&& e.actor == actor
            &&& e.action == action
            &&& e.object_type == object_type
            &&& e.object_id == object_id
            &&& e.detail == detail
        }),
        after.users == s.users && after.groups == s.groups && after.grants == s.grants
            && after.resources == s.resources && after.group_members == s.group_members
            && after.group_groups == s.group_groups && after.identities == s.identities
            && after.invitations == s.invitations,
{
}

/// The permissions of a listing stand in the order of their names, each once.
pub proof fn law_permissions_are_in_the_order_of_their_names(set: Set<Permission>, p: Permission)
    ensures
        grants::by_name(set).contains(p) <==> set.contains(p),
        forall|i: int, j: int|
            0 <= i < j < grants::by_name(set).len() ==> {
                ||| #[trigger] grants::by_name(set)[i] == Permission::Admin
                    && #[trigger] grants::by_name(set)[j] != Permission::Admin
                ||| grants::by_name(set)[i] == Permission::Read && grants::by_name(set)[j]
                    == Permission::Write
            },
{
    lemma_by_name(set, p);
}

/// What is said where a grant, a group or a nesting is refused.
pub proof fn law_what_refusals_say(
    s: StoreView,
    kind: Seq<char>,
    subject: Seq<char>,
    repo: Seq<char>,
    role: Seq<char>,
    name: Seq<char>,
    parent: Seq<char>,
    member: Seq<char>,
)
    ensures
        role != "reader"@ && role != "writer"@ && role != "admin"@ ==> s.grant_refusal(
            kind,
            subject,
            repo,
            role,
        ) == Some(
            CoreErrorView::InvalidArgument("unknown grant role "@ + text::debug_quoted(role)),
        ),
        kind == "user"@ && !s.has_user(subject) ==> s.revoke_refusal(kind, subject, repo) == Some(
            CoreErrorView::InvalidArgument("unknown grant user "@ + text::debug_quoted(subject)),
        ),
        kind == "group"@ && s.group_id(subject) is Err ==> s.revoke_refusal(kind, subject, repo)
            == Some(
            CoreErrorView::InvalidArgument("unknown grant group "@ + text::debug_quoted(subject)),
        ),
        kind == "user"@ && s.has_user(subject) && text::trimmed(repo).len() == 0
            ==> s.revoke_refusal(kind, subject, repo) == Some(
            CoreErrorView::InvalidArgument("repo must not be empty"@),
        ),
        kind == "user"@ && s.has_user(subject) && text::trimmed(repo).len() > 0
            && !s.has_repository(text::trimmed(repo)) ==> s.revoke_refusal(kind, subject, repo)
            == Some(CoreErrorView::NotFound),
        text::trimmed(name).len() == 0 ==> groups::group_refusal(name) == Some(
            CoreErrorView::InvalidArgument("group name must not be empty"@),
        ),
        s.group_id(parent) is Ok && s.group_id(parent) == s.group_id(member) ==> s.nesting_refusal(
            parent,
            member,
        ) == Some(CoreErrorView::InvalidArgument("group cannot contain itself"@)),
{
    roles::law_what_each_role_permits(role, Seq::empty());
    lemma_user_is_no_group();
}

/// The groups on the way to a grant are called by their names, and by their identifiers
/// only where there is no group.
pub proof fn law_groups_on_the_way_have_their_names(
    s: StoreView,
    v: Seq<(Seq<char>, Option<int>)>,
    labels: Seq<Seq<char>>,
    i: int,
)
    requires
        s.are_labels(v, labels),
        0 <= i < v.len(),
    ensures
        labels.len() == v.len(),
        (exists|n: Seq<char>| #[trigger] s.groups.contains_key(n) && s.groups[n].id == v[i].0)
            ==> s.groups.contains_key(labels[i]) && s.groups[labels[i]].id == v[i].0,
        (forall|n: Seq<char>| #[trigger] s.groups.contains_key(n) ==> s.groups[n].id != v[i].0)
            ==> labels[i] == v[i].0,
{
    assert(s.is_label(v[i].0, labels[i]));
}

} // verus!
