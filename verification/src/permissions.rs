//! Sets of permissions.

use vstd::prelude::*;

use crate::roles::Permission;

verus! {

/// A set of permissions.
#[derive(Clone, Copy, Debug, PartialEq, Eq, Structural)]
pub struct PermissionSet {
    pub read: bool,
    pub write: bool,
    pub admin: bool,
}

impl View for PermissionSet {
    type V = Set<Permission>;

    open spec fn view(&self) -> Set<Permission> {
        Set::new(
            |p: Permission|
                match p {
                    Permission::Read => self.read,
                    Permission::Write => self.write,
                    Permission::Admin => self.admin,
                },
        )
    }
}

impl Default for PermissionSet {
    fn default() -> (r: Self)
        ensures
            r@ == Set::<Permission>::empty(),
    {
        let r = PermissionSet { read: false, write: false, admin: false };
        assert(r@ =~= Set::<Permission>::empty());
        r
    }
}

/// The permissions of a set, the least first.
pub open spec fn listed(s: Set<Permission>) -> Seq<Permission> {
    let r = if s.contains(Permission::Read) {
        seq![Permission::Read]
    } else {
        seq![]
    };
    let w = if s.contains(Permission::Write) {
        r.push(Permission::Write)
    } else {
        r
    };
    if s.contains(Permission::Admin) {
        w.push(Permission::Admin)
    } else {
        w
    }
}

impl PermissionSet {
    /// Adds a permission.
    pub fn insert(&mut self, permission: Permission)
        ensures
            final(self)@ == old(self)@.insert(permission),
    {
        match permission {
            Permission::Read => {
                self.read = true;
            },
            Permission::Write => {
                self.write = true;
            },
            Permission::Admin => {
                self.admin = true;
            },
        }
        assert(self@ =~= old(self)@.insert(permission));
    }

    /// The permissions, the least first.
    pub fn into_permissions(self) -> (r: Vec<Permission>)
        ensures
            r@ == listed(self@),
    {
        let mut out: Vec<Permission> = Vec::new();
        if self.read {
            out.push(Permission::Read);
        }
        if self.write {
            out.push(Permission::Write);
        }
        if self.admin {
            out.push(Permission::Admin);
        }
        out
    }
}

/// The list of a set holds exactly the permissions of the set.
pub proof fn law_listed_holds_the_set(s: Set<Permission>, p: Permission)
    ensures
        listed(s).contains(p) <==> s.contains(p),
{
    let l = listed(s);
    if s.contains(p) {
        let r: int = if s.contains(Permission::Read) { 1 } else { 0 };
        let w: int = if s.contains(Permission::Write) { 1 } else { 0 };
        let at = match p {
            Permission::Read => 0,
            Permission::Write => r,
            Permission::Admin => r + w,
        };
        assert(l[at] == p);
    }
}

/// Each permission is listed once, reading before writing and writing before
/// administering.
pub proof fn law_listed_once_in_order(s: Set<Permission>)
    ensures
        listed(s).no_duplicates(),
        forall|i: int, j: int|
            0 <= i < j < listed(s).len() ==> {
                ||| #[trigger] listed(s)[i] == Permission::Read && #[trigger] listed(s)[j]
                    != Permission::Read
                ||| listed(s)[i] == Permission::Write && listed(s)[j] == Permission::Admin
            },
{
}

} // verus!
