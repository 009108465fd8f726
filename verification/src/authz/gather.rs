//! What follows from the roles that are granted.

use vstd::prelude::*;

use crate::error::{invalid, CoreError, CoreErrorView};
use crate::model::{ResourcePermission, ResourcePermissionView};
use crate::order;
use crate::order::sort;
use crate::permissions;
use crate::permissions::PermissionSet;
use crate::resource_id;
use crate::resource_id::ResourceID;
use crate::roles;
use crate::roles::{is_known_role, role_allows, role_permissions, Permission};
use crate::table;
use crate::table::Table;
use crate::text;
use crate::text::{begins_with, cat2, debug_text, has_nothing, same};

verus! {

/// The error for a role that there is not.
pub open spec fn unknown_role(role: Seq<char>) -> CoreErrorView {
    CoreErrorView::InvalidArgument("unknown grant role "@ + text::debug_quoted(role))
}

/// The error for a role that there is not.
pub fn unknown_role_error(role: &str) -> (r: CoreError)
    ensures
        r@ == unknown_role(role@),
{
    invalid(cat2("unknown grant role ", debug_text(role).as_str()).as_str())
}

/// Whether one of some roles permits an action. The roles are looked at one
/// after the other until one does; a role that there is not is an error if it
/// comes first.
pub open spec fn any_role_allows(roles: Seq<Seq<char>>, action: Seq<char>) -> Result<
    bool,
    CoreErrorView,
>
    decreases roles.len(),
{
    if roles.len() == 0 {
        Ok(false)
    } else if roles[0] == "admin"@ {
        Ok(true)
    } else if roles::role_named(roles[0]) is None {
        Err(unknown_role(roles[0]))
    } else if roles::allows(roles[0], action) {
        Ok(true)
    } else {
        any_role_allows(roles.skip(1), action)
    }
}

/// Whether one of some roles permits an action.
pub fn roles_allow(roles: &Vec<String>, action: &str) -> (r: Result<bool, CoreError>)
    ensures
        match r {
            Ok(b) => any_role_allows(text::texts(roles@), action@) == Ok::<bool, CoreErrorView>(b),
            Err(e) => any_role_allows(text::texts(roles@), action@) == Err::<bool, _>(e@),
        },
{
    let ghost all = text::texts(roles@);
    let mut i: usize = 0;
    assert(all.skip(0) =~= all);
    while i < roles.len()
        invariant
            i <= roles@.len(),
            all == text::texts(roles@),
            any_role_allows(all, action@) == any_role_allows(all.skip(i as int), action@),
        decreases roles@.len() - i,
    {
        let role = roles[i].as_str();
        assert(all.skip(i as int)[0] == role@);
        assert(all.skip(i as int).skip(1) =~= all.skip(i + 1));
        if same(role, "admin") {
            return Ok(true);
        }
        if !is_known_role(role) {
            return Err(unknown_role_error(role));
        }
        if role_allows(role, action) {
            return Ok(true);
        }
        i += 1;
    }
    Ok(false)
}

/// A role that a user has on a repository.
#[derive(Debug, PartialEq, Eq)]
pub struct RoleRow {
    pub repository_id: String,
    pub role: String,
}

impl View for RoleRow {
    type V = (Seq<char>, Seq<char>);

    open spec fn view(&self) -> (Seq<char>, Seq<char>) {
        (self.repository_id@, self.role@)
    }
}

/// The resource that stands for a repository; empty where there is none.
pub open spec fn resource_or_empty(repository_id: Seq<char>) -> Seq<char> {
    match resource_id::resource_for(repository_id) {
        Some(id) => id,
        None => Seq::empty(),
    }
}

/// The resource that stands for a repository; empty where there is none.
pub fn resource_of(repository_id: &str) -> (r: String)
    ensures
        r@ == resource_or_empty(repository_id@),
{
    match ResourceID::for_repository_id(repository_id) {
        Some(id) => id,
        None => {
            let nothing = String::new();
            assert(nothing@ =~= Seq::<char>::empty());
            nothing
        },
    }
}

/// What is permitted on a resource so far.
pub open spec fn so_far(m: Map<Seq<char>, Set<Permission>>, resource: Seq<char>) -> Set<Permission> {
    if m.contains_key(resource) {
        m[resource]
    } else {
        Set::empty()
    }
}

/// What a user's roles permit on each of the resources whose identifier begins
/// with `prefix`; the first role that there is not is an error.
pub open spec fn gathered(rows: Seq<(Seq<char>, Seq<char>)>, prefix: Seq<char>) -> Result<
    Map<Seq<char>, Set<Permission>>,
    CoreErrorView,
>
    decreases rows.len(),
{
    if rows.len() == 0 {
        Ok(Map::empty())
    } else {
        let resource = resource_or_empty(rows.last().0);
        match gathered(rows.drop_last(), prefix) {
            Err(e) => Err(e),
            Ok(m) => if prefix.len() > 0 && !text::has_prefix(resource, prefix) {
                Ok(m)
            } else {
                match roles::role_named(rows.last().1) {
                    None => Err(unknown_role(rows.last().1)),
                    Some(role) => Ok(
                        m.insert(
                            resource,
                            so_far(m, resource).union(roles::permissions_of(role).to_set()),
                        ),
                    ),
                }
            },
        }
    }
}

/// Resources and what is permitted on each, as entries of a list.
pub open spec fn entries(m: Map<Seq<char>, Set<Permission>>) -> Set<ResourcePermissionView> {
    Set::new(
        |e: ResourcePermissionView|
            m.contains_key(e.resource_id) && e.permission == permissions::listed(m[e.resource_id]),
    )
}

fn add_all(set: PermissionSet, more: &Vec<Permission>) -> (r: PermissionSet)
    ensures
        r@ == set@.union(more@.to_set()),
{
    let mut out = set;
    let mut i: usize = 0;
    assert(set@ =~= set@.union(more@.take(0).to_set()));
    while i < more.len()
        invariant
            i <= more@.len(),
            out@ == set@.union(more@.take(i as int).to_set()),
        decreases more@.len() - i,
    {
        let ghost before = more@.take(i as int);
        out.insert(more[i]);
        i += 1;
        proof {
            let after = more@.take(i as int);
            assert(after =~= before.push(more@[i - 1]));
            assert forall|p: Permission| after.contains(p) <==> before.contains(p) || p == more@[i
                - 1] by {
                if before.contains(p) {
                    let k = choose|k: int| 0 <= k < before.len() && before[k] == p;
                    assert(after[k] == p);
                }
                assert(after[after.len() - 1] == more@[i - 1]);
            }
            assert(out@ =~= set@.union(after.to_set()));
        }
    }
    assert(more@.take(i as int) =~= more@);
    out
}

fn gather(rows: &Vec<RoleRow>, prefix: &str) -> (r: Result<Table<String, PermissionSet>, CoreError>)
    ensures
        match r {
            Ok(t) => t.wf() && gathered(order::views(rows@), prefix@) == Ok::<_, CoreErrorView>(t@),
            Err(e) => gathered(order::views(rows@), prefix@) == Err::<
                Map<Seq<char>, Set<Permission>>,
                _,
            >(e@),
        },
{
    let ghost all = order::views(rows@);
    let mut acc: Table<String, PermissionSet> = Table::new();
    let mut i: usize = 0;
    assert(acc@ =~= Map::<Seq<char>, Set<Permission>>::empty());
    while i < rows.len()
        invariant
            acc.wf(),
            i <= rows@.len(),
            all == order::views(rows@),
            gathered(all.take(i as int), prefix@) == Ok::<_, CoreErrorView>(acc@),
        decreases rows@.len() - i,
    {
        let ghost before = acc@;
        assert(all.take(i + 1).drop_last() =~= all.take(i as int));
        assert(all.take(i + 1).last() == rows@[i as int]@);
        let resource = resource_of(rows[i].repository_id.as_str());
        if has_nothing(prefix) || begins_with(resource.as_str(), prefix) {
            match role_permissions(rows[i].role.as_str()) {
                None => {
                    let e = unknown_role_error(rows[i].role.as_str());
                    proof {
                        lemma_error_stays(all, i + 1, prefix@);
                    }
                    return Err(e);
                },
                Some(given) => {
                    let set = match acc.get(&resource) {
                        Some(set) => *set,
                        None => PermissionSet::default(),
                    };
                    let more = add_all(set, &given);
                    acc.insert(resource, more);
                },
            }
        }
        i += 1;
    }
    assert(all.take(i as int) =~= all);
    Ok(acc)
}

/// What goes wrong with the first rows goes wrong with all of them.
proof fn lemma_error_stays(rows: Seq<(Seq<char>, Seq<char>)>, n: int, prefix: Seq<char>)
    requires
        0 <= n <= rows.len(),
        gathered(rows.take(n), prefix) is Err,
    ensures
        gathered(rows, prefix) == gathered(rows.take(n), prefix),
    decreases rows.len(),
{
    if n == rows.len() {
        assert(rows.take(n) =~= rows);
    } else {
        assert(rows.drop_last().take(n) =~= rows.take(n));
        lemma_error_stays(rows.drop_last(), n, prefix);
    }
}

/// The resources that a user has a role on and whose identifier begins with
/// `prefix`, in order.
pub fn candidate_resource_ids(rows: &Vec<RoleRow>, prefix: &str) -> (r: Result<
    Vec<String>,
    CoreError,
>)
    ensures
        match r {
            Ok(ids) => gathered(order::views(rows@), prefix@) matches Ok(m)
                && order::is_listing::<String>(order::views(ids@), m.dom()),
            Err(e) => gathered(order::views(rows@), prefix@) == Err::<
                Map<Seq<char>, Set<Permission>>,
                _,
            >(e@),
        },
{
    let acc = match gather(rows, prefix) {
        Ok(acc) => acc,
        Err(e) => return Err(e),
    };
    let mut found: Vec<String> = Vec::new();
    let mut i: usize = 0;
    while i < acc.len()
        invariant
            acc.wf(),
            i <= acc.rows().len(),
            found@.len() == i,
            forall|j: int| 0 <= j < i ==> (#[trigger] found@[j])@ == acc.rows()[j].0,
        decreases acc.rows().len() - i,
    {
        found.push(acc.key_at(i).clone());
        i += 1;
    }
    let ghost list = order::views(found@);
    proof {
        table::lemma_map_of(acc.rows());
        assert forall|k: Seq<char>| list.contains(k) <==> acc@.contains_key(k) by {
            if list.contains(k) {
                let j = choose|j: int| 0 <= j < list.len() && list[j] == k;
                assert(acc.rows()[j].0 == k);
            }
            if acc@.contains_key(k) {
                let j = table::row_of(acc.rows(), k);
                assert(list[j] == k);
            }
        }
        assert(list.to_set() =~= acc@.dom());
        assert(list.no_duplicates()) by {
            assert forall|a: int, b: int| 0 <= a < list.len() && 0 <= b < list.len() && a
                != b implies list[a] != list[b] by {
                assert(acc.rows()[a].0 == list[a]);
                assert(acc.rows()[b].0 == list[b]);
            }
        }
    }
    let out = sort(found);
    proof {
        order::lemma_sorted_copy::<String>(order::views(out@), list);
    }
    Ok(out)
}

/// What a user's roles permit on each of the resources whose identifier begins
/// with `prefix`, in the order of the resources.
pub fn accessible_resources(rows: &Vec<RoleRow>, prefix: &str) -> (r: Result<
    Vec<ResourcePermission>,
    CoreError,
>)
    ensures
        match r {
            Ok(out) => gathered(order::views(rows@), prefix@) matches Ok(m)
                && order::is_listing::<ResourcePermission>(order::views(out@), entries(m)),
            Err(e) => gathered(order::views(rows@), prefix@) == Err::<
                Map<Seq<char>, Set<Permission>>,
                _,
            >(e@),
        },
{
    let acc = match gather(rows, prefix) {
        Ok(acc) => acc,
        Err(e) => return Err(e),
    };
    let mut found: Vec<ResourcePermission> = Vec::new();
    let mut i: usize = 0;
    while i < acc.len()
        invariant
            acc.wf(),
            i <= acc.rows().len(),
            found@.len() == i,
            forall|j: int|
                0 <= j < i ==> (#[trigger] found@[j])@ == (ResourcePermissionView {
                    resource_id: acc.rows()[j].0,
                    permission: permissions::listed(acc.rows()[j].1),
                }),
        decreases acc.rows().len() - i,
    {
        found.push(
            ResourcePermission {
                resource_id: acc.key_at(i).clone(),
                permission: acc.value_at(i).into_permissions(),
            },
        );
        i += 1;
    }
    let ghost list = order::views(found@);
    proof {
        let rows = acc.rows();
        table::lemma_map_of(rows);
        assert forall|e: ResourcePermissionView| list.contains(e) <==> entries(acc@).contains(e) by {
            if list.contains(e) {
                let j = choose|j: int| 0 <= j < list.len() && list[j] == e;
                assert(rows[j].0 == e.resource_id);
            }
            if entries(acc@).contains(e) {
                let j = table::row_of(rows, e.resource_id);
                assert(rows[j].0 == e.resource_id);
                assert(list[j] =~= e);
            }
        }
        assert(list.to_set() =~= entries(acc@));
        assert forall|a: int, b: int| 0 <= a < list.len() && 0 <= b < list.len() && a
            != b implies list[a] != list[b] by {
            assert(rows[a].0 == list[a].resource_id);
            assert(rows[b].0 == list[b].resource_id);
        }
    }
    let out = sort(found);
    proof {
        order::lemma_sorted_copy::<ResourcePermission>(order::views(out@), list);
    }
    Ok(out)
}

/// What the rows say of one resource and one permission, if every role is known.
proof fn lemma_gathered_permissions(
    rows: Seq<(Seq<char>, Seq<char>)>,
    prefix: Seq<char>,
    m: Map<Seq<char>, Set<Permission>>,
    resource: Seq<char>,
    p: Permission,
)
    requires
        gathered(rows, prefix) == Ok::<_, CoreErrorView>(m),
    ensures
        m.contains_key(resource) <==> {
            &&& prefix.len() == 0 || text::has_prefix(resource, prefix)
            &&& exists|k: int|
                0 <= k < rows.len() && resource_or_empty((#[trigger] rows[k]).0) == resource
        },
        m.contains_key(resource) ==> (m[resource].contains(p) <==> exists|k: int|
            0 <= k < rows.len() && resource_or_empty((#[trigger] rows[k]).0) == resource && match p {
                Permission::Read => rows[k].1 == "reader"@ || rows[k].1 == "writer"@ || rows[k].1
                    == "admin"@,
                Permission::Write => rows[k].1 == "writer"@ || rows[k].1 == "admin"@,
                Permission::Admin => rows[k].1 == "admin"@,
            }),
    decreases rows.len(),
{
    if rows.len() > 0 {
        let front = rows.drop_last();
        let before = gathered(front, prefix)->Ok_0;
        lemma_gathered_permissions(front, prefix, before, resource, p);
        let last = rows.len() - 1;
        let on = resource_or_empty(rows[last].0);
        roles::law_what_each_role_permits(rows[last].1, Seq::empty());
        assert forall|k: int| 0 <= k < front.len() implies front[k] == #[trigger] rows[k] by {}
        assert(forall|k: int| 0 <= k < front.len() ==> rows[k] == #[trigger] front[k]);
        if let Some(role) = roles::role_named(rows[last].1) {
            let given = roles::permissions_of(role);
            assert(given.to_set().contains(p) <==> given.contains(p));
        }
        if on == resource {
            assert(resource_or_empty(rows[last].0) == resource);
        }
    }
}

/// What the rows say of one permission of one entry.
proof fn lemma_entry(
    rows: Seq<(Seq<char>, Seq<char>)>,
    prefix: Seq<char>,
    m: Map<Seq<char>, Set<Permission>>,
    e: ResourcePermissionView,
    p: Permission,
)
    requires
        gathered(rows, prefix) == Ok::<_, CoreErrorView>(m),
        entries(m).contains(e),
    ensures
        prefix.len() == 0 || text::has_prefix(e.resource_id, prefix),
        exists|k: int|
            0 <= k < rows.len() && resource_or_empty((#[trigger] rows[k]).0) == e.resource_id,
        e.permission.no_duplicates(),
        e.permission.contains(p) <==> exists|k: int|
            0 <= k < rows.len() && resource_or_empty((#[trigger] rows[k]).0) == e.resource_id
                && match p {
                Permission::Read => rows[k].1 == "reader"@ || rows[k].1 == "writer"@ || rows[k].1
                    == "admin"@,
                Permission::Write => rows[k].1 == "writer"@ || rows[k].1 == "admin"@,
                Permission::Admin => rows[k].1 == "admin"@,
            },
{
    lemma_gathered_permissions(rows, prefix, m, e.resource_id, p);
    permissions::law_listed_holds_the_set(m[e.resource_id], p);
    permissions::law_listed_once_in_order(m[e.resource_id]);
}

/// A listing unites the roles that a user has on a resource. A resource that is named
/// carries a permission exactly if some row on it has a role that gives that
/// permission, whatever rows come before or after: `reader` gives `Read`, `writer`
/// gives `Write` as well, and `admin` gives all three. Each permission is there once.
pub proof fn law_listing_unites_the_roles(
    rows: Seq<(Seq<char>, Seq<char>)>,
    prefix: Seq<char>,
    m: Map<Seq<char>, Set<Permission>>,
    out: Seq<ResourcePermissionView>,
    i: int,
)
    requires
        gathered(rows, prefix) == Ok::<_, CoreErrorView>(m),
        order::is_listing::<ResourcePermission>(out, entries(m)),
        0 <= i < out.len(),
    ensures
        out[i].permission.contains(Permission::Read) <==> exists|k: int|
            0 <= k < rows.len() && resource_or_empty((#[trigger] rows[k]).0) == out[i].resource_id
                && (rows[k].1 == "reader"@ || rows[k].1 == "writer"@ || rows[k].1 == "admin"@),
        out[i].permission.contains(Permission::Write) <==> exists|k: int|
            0 <= k < rows.len() && resource_or_empty((#[trigger] rows[k]).0) == out[i].resource_id
                && (rows[k].1 == "writer"@ || rows[k].1 == "admin"@),
        out[i].permission.contains(Permission::Admin) <==> exists|k: int|
            0 <= k < rows.len() && resource_or_empty((#[trigger] rows[k]).0) == out[i].resource_id
                && rows[k].1 == "admin"@,
        out[i].permission.no_duplicates(),
{
    assert(out.to_set().contains(out[i]));
    lemma_entry(rows, prefix, m, out[i], Permission::Read);
    lemma_entry(rows, prefix, m, out[i], Permission::Write);
    lemma_entry(rows, prefix, m, out[i], Permission::Admin);
}

/// A listing names each resource with the prefix that some row is on, once, and no
/// other.
pub proof fn law_listing_names_each_resource_once(
    rows: Seq<(Seq<char>, Seq<char>)>,
    prefix: Seq<char>,
    m: Map<Seq<char>, Set<Permission>>,
    out: Seq<ResourcePermissionView>,
    resource: Seq<char>,
)
    requires
        gathered(rows, prefix) == Ok::<_, CoreErrorView>(m),
        order::is_listing::<ResourcePermission>(out, entries(m)),
    ensures
        (exists|i: int| 0 <= i < out.len() && (#[trigger] out[i]).resource_id == resource) <==> {
            &&& prefix.len() == 0 || text::has_prefix(resource, prefix)
            &&& exists|k: int|
                0 <= k < rows.len() && resource_or_empty((#[trigger] rows[k]).0) == resource
        },
        forall|i: int, j: int|
            0 <= i < j < out.len() ==> (#[trigger] out[i]).resource_id != (
            #[trigger] out[j]).resource_id,
{
    lemma_gathered_permissions(rows, prefix, m, resource, Permission::Read);
    assert forall|i: int| 0 <= i < out.len() implies entries(m).contains(#[trigger] out[i]) by {
        assert(out.to_set().contains(out[i]));
    }
    if m.contains_key(resource) {
        let e = ResourcePermissionView {
            resource_id: resource,
            permission: permissions::listed(m[resource]),
        };
        assert(entries(m).contains(e));
        assert(out.to_set().contains(e));
        let i = choose|i: int| 0 <= i < out.len() && out[i] == e;
        assert(out[i].resource_id == resource);
    }
    assert forall|i: int, j: int| 0 <= i < j < out.len() implies (#[trigger] out[i]).resource_id
        != (#[trigger] out[j]).resource_id by {
        assert(entries(m).contains(out[i]));
        assert(entries(m).contains(out[j]));
        if out[i].resource_id == out[j].resource_id {
            assert(out[i] == out[j]);
        }
    }
}

/// The resources that may be asked about are those that some row is on, each once and
/// with the prefix.
pub proof fn law_candidates_are_the_resources_of_the_rows(
    rows: Seq<(Seq<char>, Seq<char>)>,
    prefix: Seq<char>,
    m: Map<Seq<char>, Set<Permission>>,
    ids: Seq<Seq<char>>,
    resource: Seq<char>,
)
    requires
        gathered(rows, prefix) == Ok::<_, CoreErrorView>(m),
        order::is_listing::<String>(ids, m.dom()),
    ensures
        ids.contains(resource) <==> {
            &&& prefix.len() == 0 || text::has_prefix(resource, prefix)
            &&& exists|k: int|
                0 <= k < rows.len() && resource_or_empty((#[trigger] rows[k]).0) == resource
        },
        ids.no_duplicates(),
{
    lemma_gathered_permissions(rows, prefix, m, resource, Permission::Read);
    assert(ids.contains(resource) <==> ids.to_set().contains(resource));
}

/// A listing fails exactly if a row with the prefix has a role that is not `reader`,
/// `writer` or `admin`, and the error names the first such role.
pub proof fn law_listing_fails_at_the_first_unknown_role(
    rows: Seq<(Seq<char>, Seq<char>)>,
    prefix: Seq<char>,
)
    ensures
        gathered(rows, prefix) is Err <==> exists|k: int|
            0 <= k < rows.len() && (prefix.len() == 0 || text::has_prefix(
                resource_or_empty((#[trigger] rows[k]).0),
                prefix,
            )) && rows[k].1 != "reader"@ && rows[k].1 != "writer"@ && rows[k].1 != "admin"@,
        forall|k: int|
            0 <= k < rows.len() && (prefix.len() == 0 || text::has_prefix(
                resource_or_empty((#[trigger] rows[k]).0),
                prefix,
            )) && rows[k].1 != "reader"@ && rows[k].1 != "writer"@ && rows[k].1 != "admin"@ && (
            forall|j: int|
                0 <= j < k && (prefix.len() == 0 || text::has_prefix(
                    resource_or_empty((#[trigger] rows[j]).0),
                    prefix,
                )) ==> rows[j].1 == "reader"@ || rows[j].1 == "writer"@ || rows[j].1 == "admin"@)
                ==> gathered(rows, prefix) == Err::<Map<Seq<char>, Set<Permission>>, _>(
                CoreErrorView::InvalidArgument(
                    "unknown grant role "@ + text::debug_quoted(rows[k].1),
                ),
            ),
    decreases rows.len(),
{
    if rows.len() > 0 {
        let front = rows.drop_last();
        let last = rows.len() - 1;
        law_listing_fails_at_the_first_unknown_role(front, prefix);
        roles::law_what_each_role_permits(rows[last].1, Seq::empty());
        assert forall|k: int| 0 <= k < front.len() implies front[k] == #[trigger] rows[k] by {}
        assert(forall|k: int| 0 <= k < front.len() ==> rows[k] == #[trigger] front[k]);
    }
}

/// A list of roles allows an action exactly if one of them does and none before it is
/// unknown. An `admin` may do anything, a `writer` may read and write, and a `reader`
/// may read. An unknown role that comes first is an error.
pub proof fn law_first_role_that_decides(roles: Seq<Seq<char>>, action: Seq<char>, n: int)
    requires
        0 <= n <= roles.len(),
        forall|k: int|
            0 <= k < n ==> #[trigger] roles[k] == "reader"@ && action != "read"@ || roles[k]
                == "writer"@ && action != "read"@ && action != "write"@,
    ensures
        n == roles.len() ==> any_role_allows(roles, action) == Ok::<bool, CoreErrorView>(false),
        n < roles.len() && (roles[n] == "admin"@ || roles[n] == "writer"@ && (action == "read"@
            || action == "write"@) || roles[n] == "reader"@ && action == "read"@)
            ==> any_role_allows(roles, action) == Ok::<bool, CoreErrorView>(true),
        n < roles.len() && roles[n] != "admin"@ && roles[n] != "writer"@ && roles[n] != "reader"@
            ==> any_role_allows(roles, action) == Err::<bool, _>(
            CoreErrorView::InvalidArgument("unknown grant role "@ + text::debug_quoted(roles[n])),
        ),
    decreases n,
{
    lemma_names_differ();
    if roles.len() > 0 {
        roles::law_what_each_role_permits(roles[0], action);
    }
    if n > 0 {
        let rest = roles.skip(1);
        assert(roles[0] == "reader"@ || roles[0] == "writer"@);
        assert forall|k: int| 0 <= k < n - 1 implies #[trigger] rest[k] == "reader"@ && action
            != "read"@ || rest[k] == "writer"@ && action != "read"@ && action != "write"@ by {
            assert(rest[k] == roles[k + 1]);
        }
        law_first_role_that_decides(rest, action, n - 1);
    }
}

proof fn lemma_names_differ()
    ensures
        "admin"@ != "reader"@,
        "admin"@ != "writer"@,
        "reader"@ != "writer"@,
        "admin"@ != "read"@,
        "admin"@ != "write"@,
{
    reveal_strlit("admin");
    reveal_strlit("reader");
    reveal_strlit("writer");
    reveal_strlit("read");
    reveal_strlit("write");
    assert("admin"@[0] == 'a');
    assert("reader"@[0] == 'r');
    assert("writer"@[0] == 'w');
    assert("read"@[0] == 'r');
    assert("write"@[0] == 'w');
}

/// The resource of a repository has `urc-` in front of the repository's identifier,
/// once, and whitespace around the identifier does not matter.
pub proof fn law_resource_of_a_row(id: Seq<char>, padded: Seq<char>)
    requires
        resource_id::is_repository_id(id),
        !text::has_prefix(id, "urc-"@),
        text::trimmed(padded) == id || text::trimmed(padded) == "urc-"@ + id,
    ensures
        resource_or_empty(padded) == "urc-"@ + id,
{
    resource_id::law_resource_stands_for_its_repository(id);
    resource_id::lemma_repository_id_is_trimmed(id);
}

/// Where some roles cannot decide, it is for one of them that is unknown.
pub proof fn lemma_fault_is_a_role(roles: Seq<Seq<char>>, action: Seq<char>) -> (n: int)
    requires
        any_role_allows(roles, action) is Err,
    ensures
        0 <= n < roles.len(),
        roles[n] != "reader"@ && roles[n] != "writer"@ && roles[n] != "admin"@,
        any_role_allows(roles, action) == Err::<bool, _>(
            CoreErrorView::InvalidArgument("unknown grant role "@ + text::debug_quoted(roles[n])),
        ),
    decreases roles.len(),
{
    roles::law_what_each_role_permits(roles[0], action);
    if roles::role_named(roles[0]) is None {
        0
    } else {
        let rest = roles.skip(1);
        let m = lemma_fault_is_a_role(rest, action);
        assert(rest[m] == roles[m + 1]);
        m + 1
    }
}

} // verus!
