//! A store that keeps everything in memory.

pub mod accounts;
pub mod audited;
pub mod devices;
pub mod grants;
pub mod group_laws;
pub mod groups;
pub mod laws;
pub mod login_laws;
pub mod lookup;
pub mod resources;
pub mod state;
pub mod state_laws;
pub mod tokens;

pub use audited::AuditedStore;

use vstd::prelude::*;

use crate::accounts::external_identity_key;
use crate::ids;
use crate::ids::new_id;
use crate::model::{
    AdminAuditEntry, AdminAuditEntryView, AuthSession, AuthSessionView, DeviceAuthorization,
    DeviceAuthorizationView, ExternalIdentity, ExternalIdentityView, Group, GroupView,
    IdentityInvitation, IdentityInvitationView, IssuedToken, IssuedTokenView, LoginState,
    LoginStateView, Resource, ResourceView, User, UserView, VerifiedToken, VerifiedTokenView,
};
use crate::nesting;
use crate::nesting::GroupEdge;
use crate::order;
use crate::table::{Key, Table};
use crate::text;
use crate::text::same;

verus! {

/// A list of strings as a value of a table.
pub struct TextList {
    pub items: Vec<String>,
}

impl View for TextList {
    type V = Seq<Seq<char>>;

    open spec fn view(&self) -> Seq<Seq<char>> {
        text::texts(self.items@)
    }
}

/// What a grant is found by: who has it, and on which resource.
pub struct GrantKey {
    pub subject_type: String,
    pub subject_id: String,
    pub resource_id: String,
}

impl View for GrantKey {
    type V = (Seq<char>, Seq<char>, Seq<char>);

    open spec fn view(&self) -> (Seq<char>, Seq<char>, Seq<char>) {
        (self.subject_type@, self.subject_id@, self.resource_id@)
    }
}

impl Key for GrantKey {
    fn same_key(&self, other: &Self) -> (r: bool) {
        same(self.subject_type.as_str(), other.subject_type.as_str()) && same(
            self.subject_id.as_str(),
            other.subject_id.as_str(),
        ) && same(self.resource_id.as_str(), other.resource_id.as_str())
    }
}

/// A token against forged requests, by its hash.
pub struct CsrfToken {
    pub session_id: String,
    pub expires_at: i64,
    pub consumed: bool,
}

/// The view of [`CsrfToken`].
#[verifier::ext_equal]
pub struct CsrfTokenView {
    pub session_id: Seq<char>,
    pub expires_at: i64,
    pub consumed: bool,
}

impl View for CsrfToken {
    type V = CsrfTokenView;

    open spec fn view(&self) -> CsrfTokenView {
        CsrfTokenView {
            session_id: self.session_id@,
            expires_at: self.expires_at,
            consumed: self.consumed,
        }
    }
}

/// A store that keeps everything in memory.
pub struct Store {
    users: Table<String, User>,
    identities: Table<String, ExternalIdentity>,
    invitations: Table<String, IdentityInvitation>,
    resources: Table<String, Resource>,
    grants: Table<GrantKey, String>,
    groups: Table<String, Group>,
    group_members: Table<String, TextList>,
    group_groups: Vec<GroupEdge>,
    auth_sessions: Table<String, AuthSession>,
    auth_session_codes: Table<String, String>,
    login_states: Table<String, LoginState>,
    browser_sessions: Table<String, String>,
    csrf_tokens: Table<String, CsrfToken>,
    tokens: Table<String, VerifiedToken>,
    issued_tokens: Table<String, IssuedToken>,
    admin_audit: Vec<AdminAuditEntry>,
    device_authorizations: Table<String, DeviceAuthorization>,
    device_code_index: Table<String, String>,
    user_code_index: Table<String, String>,
}

/// What a store holds.
#[verifier::ext_equal]
pub struct StoreView {
    /// The users by identifier.
    pub users: Map<Seq<char>, UserView>,
    /// The identities by provider, issuer and subject.
    pub identities: Map<Seq<char>, ExternalIdentityView>,
    /// The invitations by identifier.
    pub invitations: Map<Seq<char>, IdentityInvitationView>,
    /// The repositories by resource.
    pub resources: Map<Seq<char>, ResourceView>,
    /// The roles by kind of subject, subject and resource.
    pub grants: Map<(Seq<char>, Seq<char>, Seq<char>), Seq<char>>,
    /// The groups by name.
    pub groups: Map<Seq<char>, GroupView>,
    /// What groups a user was put into, as they were named then.
    pub group_members: Map<Seq<char>, Seq<Seq<char>>>,
    /// Which group is directly inside which other one, by identifier.
    pub group_groups: Seq<(Seq<char>, Seq<char>)>,
    /// The logins that clients wait for, by identifier.
    pub auth_sessions: Map<Seq<char>, AuthSessionView>,
    /// The logins by the hash of their code.
    pub auth_session_codes: Map<Seq<char>, Seq<char>>,
    /// The login states by the hash of their secret.
    pub login_states: Map<Seq<char>, LoginStateView>,
    /// The users of browser sessions.
    pub browser_sessions: Map<Seq<char>, Seq<char>>,
    /// The tokens against forged requests by their hash.
    pub csrf_tokens: Map<Seq<char>, CsrfTokenView>,
    /// The authentication tokens that were signed.
    pub tokens: Map<Seq<char>, VerifiedTokenView>,
    /// The tokens that were recorded as issued.
    pub issued_tokens: Map<Seq<char>, IssuedTokenView>,
    /// What administrators have changed, the oldest first.
    pub admin_audit: Seq<AdminAuditEntryView>,
    /// The devices by identifier.
    pub device_authorizations: Map<Seq<char>, DeviceAuthorizationView>,
    /// The devices by the hash of their device code.
    pub device_code_index: Map<Seq<char>, Seq<char>>,
    /// The devices by the hash of their user code.
    pub user_code_index: Map<Seq<char>, Seq<char>>,
}

impl View for Store {
    type V = StoreView;

    closed spec fn view(&self) -> StoreView {
        StoreView {
            users: self.users@,
            identities: self.identities@,
            invitations: self.invitations@,
            resources: self.resources@,
            grants: self.grants@,
            groups: self.groups@,
            group_members: self.group_members@,
            group_groups: nesting::edges_of(self.group_groups@),
            auth_sessions: self.auth_sessions@,
            auth_session_codes: self.auth_session_codes@,
            login_states: self.login_states@,
            browser_sessions: self.browser_sessions@,
            csrf_tokens: self.csrf_tokens@,
            tokens: self.tokens@,
            issued_tokens: self.issued_tokens@,
            admin_audit: order::views(self.admin_audit@),
            device_authorizations: self.device_authorizations@,
            device_code_index: self.device_code_index@,
            user_code_index: self.user_code_index@,
        }
    }
}

impl StoreView {
    /// What holds of the contents of every store.
    pub open spec fn wf(self) -> bool {
        // A user, a group and a repository are found by what they say of themselves.
        &&& forall|k: Seq<char>| #[trigger] self.users.contains_key(k) ==> self.users[k].id == k
        &&& forall|k: Seq<char>| #[trigger] self.groups.contains_key(k) ==> self.groups[k].name == k
        &&& forall|k: Seq<char>| #[trigger]
            self.resources.contains_key(k) ==> self.resources[k].resource_id == k
        // No group is inside itself, and none is put into the same group twice.
        &&& self.group_groups.no_duplicates()
        &&& nesting::acyclic(self.group_groups)
    }

    /// The contents of a new store.
    pub open spec fn empty() -> StoreView {
        StoreView {
            users: Map::empty(),
            identities: Map::empty(),
            invitations: Map::empty(),
            resources: Map::empty(),
            grants: Map::empty(),
            groups: Map::empty(),
            group_members: Map::empty(),
            group_groups: Seq::empty(),
            auth_sessions: Map::empty(),
            auth_session_codes: Map::empty(),
            login_states: Map::empty(),
            browser_sessions: Map::empty(),
            csrf_tokens: Map::empty(),
            tokens: Map::empty(),
            issued_tokens: Map::empty(),
            admin_audit: Seq::empty(),
            device_authorizations: Map::empty(),
            device_code_index: Map::empty(),
            user_code_index: Map::empty(),
        }
    }
}

impl Store {
    /// The tables have no key twice, and the contents are as every store has them.
    pub closed spec fn wf(&self) -> bool {
        &&& self.tables_wf()
        &&& self@.wf()
    }

    spec fn tables_wf(&self) -> bool {
        &&& self.users.wf()
        &&& self.identities.wf()
        &&& self.invitations.wf()
        &&& self.resources.wf()
        &&& self.grants.wf()
        &&& self.groups.wf()
        &&& self.group_members.wf()
        &&& self.auth_sessions.wf()
        &&& self.auth_session_codes.wf()
        &&& self.login_states.wf()
        &&& self.browser_sessions.wf()
        &&& self.csrf_tokens.wf()
        &&& self.tokens.wf()
        &&& self.issued_tokens.wf()
        &&& self.device_authorizations.wf()
        &&& self.device_code_index.wf()
        &&& self.user_code_index.wf()
    }

    /// What is known of the contents of a store.
    pub proof fn law_contents_are_well_formed(&self)
        requires
            self.wf(),
        ensures
            self@.wf(),
    {
    }

    /// A store that holds nothing.
    pub fn new() -> (r: Self)
        ensures
            r.wf(),
            r@ == StoreView::empty(),
    {
        let r = Store {
            users: Table::new(),
            identities: Table::new(),
            invitations: Table::new(),
            resources: Table::new(),
            grants: Table::new(),
            groups: Table::new(),
            group_members: Table::new(),
            group_groups: Vec::new(),
            auth_sessions: Table::new(),
            auth_session_codes: Table::new(),
            login_states: Table::new(),
            browser_sessions: Table::new(),
            csrf_tokens: Table::new(),
            tokens: Table::new(),
            issued_tokens: Table::new(),
            admin_audit: Vec::new(),
            device_authorizations: Table::new(),
            device_code_index: Table::new(),
            user_code_index: Table::new(),
        };
        assert(r@ =~= StoreView::empty());
        r
    }
}

impl Default for Store {
    fn default() -> (r: Self)
        ensures
            r.wf(),
            r@ == StoreView::empty(),
    {
        Store::new()
    }
}

// ---------------------------------------------------------------------------
// Filling a store by hand
// ---------------------------------------------------------------------------

/// `value`, or `default` where it is empty.
pub open spec fn or_default(value: Seq<char>, default: Seq<char>) -> Seq<char> {
    if value.len() == 0 {
        default
    } else {
        value
    }
}

impl Store {
    /// Puts a user into the store as it is; one without identifier gets a new
    /// one, one without status is active.
    pub fn add_test_user(&mut self, user: User) -> (r: User)
        requires
            old(self).wf(),
        ensures
            final(self).wf(),
            exists|id: Seq<char>|
                #![trigger ids::is_uuid(id)]
                ids::is_uuid(id) && r@ == (UserView {
                    id: or_default(user@.id, id),
                    status: or_default(user@.status, "active"@),
                    ..user@
                }),
            final(self)@ == old(self)@.with_user(r@),
    {
        let ghost given = user@;
        let mut out = user;
        let id = new_id();
        let ghost id_view = id@;
        if out.id.is_empty() {
            out.id = id;
        }
        if out.status.is_empty() {
            out.status = "active".to_owned();
        }
        assert(ids::is_uuid(id_view) && out@ == (UserView {
            id: or_default(given.id, id_view),
            status: or_default(given.status, "active"@),
            ..given
        }));
        self.put_user(out.clone());
        out
    }

    /// Shuts a user out, if there is one with that identifier.
    pub fn disable_test_user(&mut self, user_id: &str)
        requires
            old(self).wf(),
        ensures
            final(self).wf(),
            final(self)@ == if old(self)@.users.contains_key(user_id@) {
                old(self)@.with_status(user_id@, "disabled"@)
            } else {
                old(self)@
            },
    {
        let mut user = match self.users.get(&user_id.to_owned()) {
            Some(user) => user.clone(),
            None => {
                return ;
            },
        };
        user.status = "disabled".to_owned();
        assert(self@.users.contains_key(user_id@));
        self.put_user(user);
    }

    /// Puts an identity into the store; what is missing is filled in.
    pub fn add_test_external_identity(&mut self, identity: ExternalIdentity) -> (r:
        ExternalIdentity)
        requires
            old(self).wf(),
        ensures
            final(self).wf(),
            exists|id: Seq<char>|
                #![trigger ids::is_uuid(id)]
                ids::is_uuid(id) && r@ == (ExternalIdentityView {
                    id: or_default(identity@.id, id),
                    subject_strategy: or_default(identity@.subject_strategy, "oidc_sub"@),
                    status: or_default(identity@.status, "active"@),
                    ..identity@
                }),
            final(self)@ == (StoreView {
                identities: old(self)@.identities.insert(crate::accounts::identity_key(r@), r@),
                ..old(self)@
            }),
    {
        let ghost before = self@;
        let ghost given = identity@;
        let mut out = identity;
        let id = new_id();
        let ghost id_view = id@;
        if out.id.is_empty() {
            out.id = id;
        }
        if out.subject_strategy.is_empty() {
            out.subject_strategy = "oidc_sub".to_owned();
        }
        if out.status.is_empty() {
            out.status = "active".to_owned();
        }
        assert(ids::is_uuid(id_view) && out@ == (ExternalIdentityView {
            id: or_default(given.id, id_view),
            subject_strategy: or_default(given.subject_strategy, "oidc_sub"@),
            status: or_default(given.status, "active"@),
            ..given
        }));
        let key = external_identity_key(&out);
        self.identities.insert(key, out.clone());
        assert(self@ =~= (StoreView {
            identities: before.identities.insert(crate::accounts::identity_key(out@), out@),
            ..before
        }));
        out
    }

    /// Makes a user a writer of a resource.
    pub fn grant(&mut self, user_id: &str, resource_id: &str)
        requires
            old(self).wf(),
        ensures
            final(self).wf(),
            final(self)@ == old(self)@.with_grant("user"@, user_id@, resource_id@, "writer"@),
    {
        self.grant_role(user_id, resource_id, "writer");
    }

    /// Gives a user a role on a resource.
    pub fn grant_role(&mut self, user_id: &str, resource_id: &str, role: &str)
        requires
            old(self).wf(),
        ensures
            final(self).wf(),
            final(self)@ == old(self)@.with_grant("user"@, user_id@, resource_id@, role@),
    {
        self.put_grant("user", user_id, resource_id, role);
    }

    /// What administrators have changed, the oldest first.
    pub fn admin_audit_entries(&self) -> (r: Vec<AdminAuditEntry>)
        ensures
            order::views(r@) == self@.admin_audit,
    {
        let mut out: Vec<AdminAuditEntry> = Vec::new();
        let mut i: usize = 0;
        while i < self.admin_audit.len()
            invariant
                i <= self.admin_audit@.len(),
                out@.len() == i,
                forall|j: int| 0 <= j < i ==> (#[trigger] out@[j])@ == self.admin_audit@[j]@,
            decreases self.admin_audit@.len() - i,
        {
            out.push(self.admin_audit[i].clone());
            i += 1;
        }
        assert(order::views(out@) =~= order::views(self.admin_audit@));
        out
    }
}

} // verus!
