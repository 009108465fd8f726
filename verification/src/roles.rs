//! Roles, and what each of them permits.

use vstd::prelude::*;

use crate::text::same;

verus! {

/// Something that may be done with a repository.
#[derive(Clone, Copy, Debug, PartialEq, Eq, Structural)]
pub enum Permission {
    Read,
    Write,
    Admin,
}

/// A role that can be granted on a repository.
#[derive(Clone, Copy, Debug, PartialEq, Eq, Structural)]
pub enum Role {
    Reader,
    Writer,
    Admin,
}

/// The name of a permission, which is also the name of the action that it is for.
pub open spec fn permission_name(p: Permission) -> Seq<char> {
    match p {
        Permission::Read => "read"@,
        Permission::Write => "write"@,
        Permission::Admin => "admin"@,
    }
}

/// The name of a role.
pub open spec fn role_name(r: Role) -> Seq<char> {
    match r {
        Role::Reader => "reader"@,
        Role::Writer => "writer"@,
        Role::Admin => "admin"@,
    }
}

/// The role of that name.
pub open spec fn role_named(name: Seq<char>) -> Option<Role> {
    if name == role_name(Role::Reader) {
        Some(Role::Reader)
    } else if name == role_name(Role::Writer) {
        Some(Role::Writer)
    } else if name == role_name(Role::Admin) {
        Some(Role::Admin)
    } else {
        None
    }
}

/// What a role permits, the least first.
pub open spec fn permissions_of(r: Role) -> Seq<Permission> {
    match r {
        Role::Reader => seq![Permission::Read],
        Role::Writer => seq![Permission::Read, Permission::Write],
        Role::Admin => seq![Permission::Read, Permission::Write, Permission::Admin],
    }
}

/// Whether the role of that name permits the action of that name.
pub open spec fn allows(role: Seq<char>, action: Seq<char>) -> bool {
    match role_named(role) {
        Some(r) => exists|p: Permission|
            permissions_of(r).contains(p) && #[trigger] permission_name(p) == action,
        None => false,
    }
}

impl Permission {
    /// The name of the permission.
    pub fn as_str(&self) -> (r: &'static str)
        ensures
            r@ == permission_name(*self),
    {
        match self {
            Permission::Read => "read",
            Permission::Write => "write",
            Permission::Admin => "admin",
        }
    }
}

impl Role {
    /// The name of the role.
    pub fn as_str(&self) -> (r: &'static str)
        ensures
            r@ == role_name(*self),
    {
        match self {
            Role::Reader => "reader",
            Role::Writer => "writer",
            Role::Admin => "admin",
        }
    }

    /// The role of that name.
    pub fn from_name(name: &str) -> (r: Option<Role>)
        ensures
            r == role_named(name@),
    {
        if same(name, "reader") {
            Some(Role::Reader)
        } else if same(name, "writer") {
            Some(Role::Writer)
        } else if same(name, "admin") {
            Some(Role::Admin)
        } else {
            None
        }
    }

    /// What the role permits.
    pub fn permissions(&self) -> (r: Vec<Permission>)
        ensures
            r@ == permissions_of(*self),
    {
        let mut out: Vec<Permission> = Vec::new();
        out.push(Permission::Read);
        match self {
            Role::Reader => {},
            Role::Writer => {
                out.push(Permission::Write);
            },
            Role::Admin => {
                out.push(Permission::Write);
                out.push(Permission::Admin);
            },
        }
        out
    }
}

/// Whether there is a role of that name.
pub fn is_known_role(name: &str) -> (r: bool)
    ensures
        r == (role_named(name@) is Some),
{
    Role::from_name(name).is_some()
}

/// What the role of that name permits.
pub fn role_permissions(name: &str) -> (r: Option<Vec<Permission>>)
    ensures
        match r {
            Some(p) => role_named(name@) matches Some(role) && p@ == permissions_of(role),
            None => role_named(name@) is None,
        },
{
    match Role::from_name(name) {
        Some(role) => Some(role.permissions()),
        None => None,
    }
}

/// Whether the role of that name permits the action of that name.
pub fn role_allows(role: &str, action: &str) -> (r: bool)
    ensures
        r == allows(role@, action@),
{
    match Role::from_name(role) {
        None => false,
        Some(known) => {
            let permissions = known.permissions();
            let mut i: usize = 0;
            while i < permissions.len()
                invariant
                    i <= permissions@.len(),
                    permissions@ == permissions_of(known),
                    role_named(role@) == Some(known),
                    forall|j: int| 0 <= j < i ==> permission_name(#[trigger] permissions@[j]) != action@,
                decreases permissions@.len() - i,
            {
                if same(permissions[i].as_str(), action) {
                    assert(permissions_of(known).contains(permissions@[i as int]));
                    return true;
                }
                i += 1;
            }
            assert forall|p: Permission| permissions_of(known).contains(p) implies #[trigger] permission_name(
                p,
            ) != action@ by {
                let j = choose|j: int| 0 <= j < permissions@.len() && permissions@[j] == p;
                assert(permission_name(permissions@[j]) != action@);
            }
            false
        },
    }
}

/// A copy of a list of permissions.
pub fn copy_permissions(v: &Vec<Permission>) -> (r: Vec<Permission>)
    ensures
        r@ == v@,
{
    let mut out: Vec<Permission> = Vec::new();
    let mut i: usize = 0;
    while i < v.len()
        invariant
            i <= v@.len(),
            out@ == v@.take(i as int),
        decreases v@.len() - i,
    {
        out.push(v[i]);
        i += 1;
        assert(v@.take(i as int) =~= v@.take(i - 1).push(v@[i - 1]));
    }
    assert(v@.take(i as int) =~= v@);
    out
}

/// Whoever may write may read, and an administrator may do both.
pub proof fn law_roles_are_nested(action: Seq<char>)
    ensures
        allows(role_name(Role::Reader), action) ==> allows(role_name(Role::Writer), action),
        allows(role_name(Role::Writer), action) ==> allows(role_name(Role::Admin), action),
{
    lemma_role_names();
    let r = permissions_of(Role::Reader);
    let w = permissions_of(Role::Writer);
    let a = permissions_of(Role::Admin);
    assert forall|p: Permission| r.contains(p) implies w.contains(p) by {
        assert(w[0] == Permission::Read);
    }
    assert forall|p: Permission| w.contains(p) implies a.contains(p) by {
        assert(a[0] == Permission::Read && a[1] == Permission::Write);
    }
    if allows(role_name(Role::Reader), action) {
        let p = choose|p: Permission| r.contains(p) && #[trigger] permission_name(p) == action;
        assert(w.contains(p) && permission_name(p) == action);
    }
    if allows(role_name(Role::Writer), action) {
        let p = choose|p: Permission| w.contains(p) && #[trigger] permission_name(p) == action;
        assert(a.contains(p) && permission_name(p) == action);
    }
}

/// A role is found by its name.
pub proof fn law_role_names_are_distinct(r: Role)
    ensures
        role_named(role_name(r)) == Some(r),
{
    lemma_role_names();
}

proof fn lemma_role_names()
    ensures
        "reader"@ != "writer"@,
        "reader"@ != "admin"@,
        "writer"@ != "admin"@,
{
    reveal_strlit("reader");
    reveal_strlit("writer");
    reveal_strlit("admin");
    assert("reader"@[0] == 'r');
    assert("writer"@[0] == 'w');
    assert("admin"@[0] == 'a');
}

/// There are three roles. A reader may read, a writer may read and write, and an
/// admin may read, write and administer; nothing else is a role, and nothing else
/// may be done.
pub proof fn law_what_each_role_permits(name: Seq<char>, action: Seq<char>)
    ensures
        role_named(name) is Some <==> (name == "reader"@ || name == "writer"@ || name == "admin"@),
        role_named(name) matches Some(r) ==> {
            &&& permissions_of(r).contains(Permission::Read)
            &&& permissions_of(r).contains(Permission::Write) <==> (name == "writer"@ || name
                == "admin"@)
            &&& permissions_of(r).contains(Permission::Admin) <==> name == "admin"@
            &&& permissions_of(r).no_duplicates()
        },
        allows(name, action) <==> {
            ||| action == "read"@ && (name == "reader"@ || name == "writer"@ || name == "admin"@)
            ||| action == "write"@ && (name == "writer"@ || name == "admin"@)
            ||| action == "admin"@ && name == "admin"@
        },
{
    lemma_role_names();
    let reader = seq![Permission::Read];
    let writer = seq![Permission::Read, Permission::Write];
    let admin = seq![Permission::Read, Permission::Write, Permission::Admin];
    assert(reader[0] == Permission::Read);
    assert(writer[0] == Permission::Read && writer[1] == Permission::Write);
    assert(admin[0] == Permission::Read && admin[1] == Permission::Write && admin[2]
        == Permission::Admin);
    assert(permission_name(Permission::Read) == "read"@);
    assert(permission_name(Permission::Write) == "write"@);
    assert(permission_name(Permission::Admin) == "admin"@);
}

} // verus!
