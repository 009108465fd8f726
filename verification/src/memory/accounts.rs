//! Logins, invitations and the list of users.

use vstd::prelude::*;

use crate::accounts;
use crate::accounts::{
    allows_verified_email_invitation_binding, effective_limit, external_identity_key,
    principal_from_user,
};
use crate::email;
use crate::email::{email_domain_allowed, normalize_email, validated_account_email};
use crate::error;
use crate::error::{invalid, CoreError, CoreErrorView};
use crate::ids;
use crate::ids::new_id;
use crate::memory::{Store, StoreView};
use crate::model::{
    AddInvitationInput, AddInvitationInputView, AddUserInput, AddUserInputView, ExternalIdentity,
    ExternalIdentityView, IdentityInvitation, IdentityInvitationView, LoginBindingResult,
    LoginBindingResultView, LoginResolutionRequest, LoginResolutionRequestView, TokenPrincipal,
    TokenPrincipalView, User, UserListFilter, UserView,
};
use crate::order;
use crate::order::sort;
use crate::table;
use crate::table::Pick;
use crate::text;
use crate::text::{contains_text, is_blank, same, same_ignoring_case};
use crate::time::now_unix;

verus! {

// ---------------------------------------------------------------------------
// Logins
// ---------------------------------------------------------------------------

/// Whether the address of a login may be held against invitations at all.
pub open spec fn may_bind(req: LoginResolutionRequestView) -> bool {
    &&& req.identity.email_verified
    &&& text::trimmed(req.identity.email).len() > 0
    &&& accounts::binds_by_email(req.policy)
    &&& email::domain_allowed(req.identity.email, req.policy.allowed_email_domains)
}

/// Whether an invitation is one for this login.
pub open spec fn invites(
    invitation: IdentityInvitationView,
    identity: ExternalIdentityView,
    now: i64,
) -> bool {
    &&& invitation.provider_id == identity.provider_id
    &&& invitation.issuer == identity.issuer
    &&& invitation.status == "pending"@
    &&& invitation.expires_at == 0 || invitation.expires_at > now
    &&& text::trimmed(invitation.binding_policy) == "verified_email_invitation"@
    &&& text::lower(text::trimmed(invitation.email)) == text::lower(text::trimmed(identity.email))
}

/// The identity that a login leaves behind when it accepts an invitation.
pub open spec fn bound_identity(
    identity: ExternalIdentityView,
    user_id: Seq<char>,
    id: Seq<char>,
) -> ExternalIdentityView {
    ExternalIdentityView {
        id,
        user_id,
        subject_strategy: if identity.subject_strategy.len() == 0 {
            "oidc_sub"@
        } else {
            identity.subject_strategy
        },
        status: "active"@,
        ..identity
    }
}

impl StoreView {
    /// Whether the identity of a login is known and active.
    pub open spec fn knows(self, identity: ExternalIdentityView) -> bool {
        &&& self.identities.contains_key(accounts::identity_key(identity))
        &&& self.identities[accounts::identity_key(identity)].status == "active"@
    }

    /// Whether `i` is an invitation for this login.
    pub open spec fn is_invitation(
        self,
        i: Seq<char>,
        identity: ExternalIdentityView,
        now: i64,
    ) -> bool {
        self.invitations.contains_key(i) && invites(self.invitations[i], identity, now)
    }

    /// What the store holds once a login has accepted the invitation `i`. The
    /// identity is kept even where the invited user is gone.
    pub open spec fn after_binding(
        self,
        i: Seq<char>,
        identity: ExternalIdentityView,
        id: Seq<char>,
    ) -> StoreView {
        let user_id = self.invitations[i].user_id;
        let identities = self.identities.insert(
            accounts::identity_key(identity),
            bound_identity(identity, user_id, id),
        );
        if self.users.contains_key(user_id) {
            StoreView {
                identities,
                users: self.users.insert(
                    user_id,
                    UserView {
                        email: identity.email,
                        display_name: identity.display_name,
                        status: "active"@,
                        ..self.users[user_id]
                    },
                ),
                invitations: self.invitations.insert(
                    i,
                    IdentityInvitationView {
                        status: "accepted"@,
                        accepted_identity_id: id,
                        ..self.invitations[i]
                    },
                ),
                ..self
            }
        } else {
            StoreView { identities, ..self }
        }
    }

    /// What a login with a known identity is answered.
    pub open spec fn known_login(self, identity: ExternalIdentityView) -> Result<
        (TokenPrincipalView, LoginBindingResultView),
        CoreErrorView,
    > {
        let existing = self.identities[accounts::identity_key(identity)];
        match self.active_user(existing.user_id) {
            Err(e) => Err(e),
            Ok(user) => Ok(
                (
                    accounts::principal_of(
                        user,
                        identity.provider_id,
                        self.member_list(existing.user_id),
                    ),
                    LoginBindingResultView {
                        status: "existing"@,
                        external_identity_id: existing.id,
                        invitation_id: Seq::empty(),
                    },
                ),
            ),
        }
    }

    /// What a login is answered that has just accepted the invitation `i`.
    pub open spec fn bound_login(
        self,
        i: Seq<char>,
        identity: ExternalIdentityView,
        id: Seq<char>,
    ) -> Result<(TokenPrincipalView, LoginBindingResultView), CoreErrorView> {
        let user_id = self.invitations[i].user_id;
        if !self.users.contains_key(user_id) {
            Err(CoreErrorView::NotFound)
        } else {
            Ok(
                (
                    accounts::principal_of(
                        self.after_binding(i, identity, id).users[user_id],
                        identity.provider_id,
                        self.member_list(user_id),
                    ),
                    LoginBindingResultView {
                        status: "bound_invitation"@,
                        external_identity_id: id,
                        invitation_id: i,
                    },
                ),
            )
        }
    }

    /// Whether a login at the time `now` may leave the store as `after` and be
    /// answered `r`, `id` being the identifier for a new identity.
    pub open spec fn login_post(
        self,
        req: LoginResolutionRequestView,
        now: i64,
        id: Seq<char>,
        after: StoreView,
        r: Result<(TokenPrincipalView, LoginBindingResultView), CoreErrorView>,
    ) -> bool {
        if self.knows(req.identity) {
            after == self && r == self.known_login(req.identity)
        } else if may_bind(req) && exists|i: Seq<char>| self.is_invitation(i, req.identity, now) {
            exists|i: Seq<char>|
                {
                    &&& #[trigger] self.is_invitation(i, req.identity, now)
                    &&& after == self.after_binding(i, req.identity, id)
                    &&& r == self.bound_login(i, req.identity, id)
                }
        } else {
            &&& after == self
            &&& r == Err::<(TokenPrincipalView, LoginBindingResultView), CoreErrorView>(
                CoreErrorView::NotFound,
            )
        }
    }
}

impl Store {
    fn find_invitation(&self, identity: &ExternalIdentity, now: i64) -> (r: Option<String>)
        requires
            self.wf(),
        ensures
            match r {
                Some(i) => self@.is_invitation(i@, identity@, now),
                None => forall|i: Seq<char>| !self@.is_invitation(i, identity@, now),
            },
    {
        proof {
            table::lemma_map_of(self.invitations.rows());
        }
        let mut i: usize = 0;
        while i < self.invitations.len()
            invariant
                self.wf(),
                i <= self.invitations.rows().len(),
                forall|j: int|
                    0 <= j < i ==> !invites(
                        (#[trigger] self.invitations.rows()[j]).1,
                        identity@,
                        now,
                    ),
            decreases self.invitations.rows().len() - i,
        {
            proof {
                table::lemma_map_of(self.invitations.rows());
            }
            let invitation = self.invitations.value_at(i);
            assert(self.invitations.rows()[i as int].1 == invitation@);
            if same(invitation.provider_id.as_str(), identity.provider_id.as_str()) && same(
                invitation.issuer.as_str(),
                identity.issuer.as_str(),
            ) && same(invitation.status.as_str(), "pending") && (invitation.expires_at == 0
                || invitation.expires_at > now) && same(
                invitation.binding_policy.as_str().trim(),
                "verified_email_invitation",
            ) && same_ignoring_case(
                invitation.email.as_str().trim(),
                identity.email.as_str().trim(),
            ) {
                assert(self@.invitations.contains_key(self.invitations.rows()[i as int].0));
                return Some(self.invitations.key_at(i).clone());
            }
            i += 1;
        }
        proof {
            assert forall|k: Seq<char>| !self@.is_invitation(k, identity@, now) by {
                if self@.invitations.contains_key(k) {
                    let j = table::row_of(self.invitations.rows(), k);
                    assert(self.invitations.rows()[j].0 == k);
                }
            }
        }
        None
    }

    fn accept_invitation(
        &mut self,
        invitation_id: String,
        identity: ExternalIdentity,
        id: String,
    ) -> (r: Result<(TokenPrincipal, LoginBindingResult), CoreError>)
        requires
            old(self).wf(),
            old(self)@.invitations.contains_key(invitation_id@),
        ensures
            final(self).wf(),
            final(self)@ == old(self)@.after_binding(invitation_id@, identity@, id@),
            error::outcome(r) == old(self)@.bound_login(invitation_id@, identity@, id@),
    {
        let ghost before = self@;
        let key = external_identity_key(&identity);
        let mut invitation = match self.invitations.get(&invitation_id) {
            Some(found) => found.clone(),
            None => {
                return Err(CoreError::NotFound);
            },
        };
        let user_id = invitation.user_id.clone();
        let mut external = identity.clone();
        external.id = id.clone();
        external.user_id = user_id.clone();
        if external.subject_strategy.is_empty() {
            external.subject_strategy = "oidc_sub".to_owned();
        }
        external.status = "active".to_owned();
        assert(external@ == bound_identity(identity@, user_id@, id@));
        self.identities.insert(key, external);
        let mut user = match self.users.get(&user_id) {
            Some(found) => found.clone(),
            None => {
                assert(self@ =~= before.after_binding(invitation_id@, identity@, id@));
                return Err(CoreError::NotFound);
            },
        };
        user.email = identity.email.clone();
        user.display_name = identity.display_name.clone();
        user.status = "active".to_owned();
        let groups = self.member_list(user_id.as_str());
        let principal = principal_from_user(&user, identity.provider_id.as_str(), groups);
        self.users.insert(user_id, user);
        invitation.status = "accepted".to_owned();
        invitation.accepted_identity_id = id.clone();
        self.invitations.insert(invitation_id.clone(), invitation);
        assert(self@ =~= before.after_binding(invitation_id@, identity@, id@));
        Ok(
            (
                principal,
                LoginBindingResult {
                    status: "bound_invitation".to_owned(),
                    external_identity_id: id,
                    invitation_id,
                },
            ),
        )
    }

    /// Finds the user of a login at the time `now`: by a known identity, or by
    /// an invitation that the login accepts. A new identity gets the identifier `id`.
    pub fn resolve_login_at(&mut self, req: LoginResolutionRequest, now: i64, id: String) -> (r:
        Result<(TokenPrincipal, LoginBindingResult), CoreError>)
        requires
            old(self).wf(),
        ensures
            final(self).wf(),
            old(self)@.login_post(req@, now, id@, final(self)@, error::outcome(r)),
    {
        let identity = req.identity;
        let key = external_identity_key(&identity);
        let known = match self.identities.get(&key) {
            Some(existing) => if same(existing.status.as_str(), "active") {
                Some(existing.clone())
            } else {
                None
            },
            None => None,
        };
        if let Some(existing) = known {
            let groups = self.member_list(existing.user_id.as_str());
            return match self.active_user(existing.user_id.as_str()) {
                Err(e) => Err(e),
                Ok(user) => {
                    let binding = LoginBindingResult {
                        status: "existing".to_owned(),
                        external_identity_id: existing.id,
                        invitation_id: String::new(),
                    };
                    assert(binding.invitation_id@ =~= Seq::<char>::empty());
                    Ok((principal_from_user(user, identity.provider_id.as_str(), groups), binding))
                },
            };
        }
        if identity.email_verified && !is_blank(identity.email.as_str())
            && allows_verified_email_invitation_binding(&req.policy) && email_domain_allowed(
            identity.email.as_str(),
            &req.policy.allowed_email_domains,
        ) {
            assert(may_bind(req@));
            if let Some(invitation_id) = self.find_invitation(&identity, now) {
                let ghost i = invitation_id@;
                assert(self@.is_invitation(i, req@.identity, now));
                return self.accept_invitation(invitation_id, identity, id);
            }
        }
        Err(CoreError::NotFound)
    }

    /// Finds the user of a login: by a known identity, or by an invitation that
    /// the login accepts.
    pub fn resolve_login(&mut self, req: LoginResolutionRequest) -> (r: Result<
        (TokenPrincipal, LoginBindingResult),
        CoreError,
    >)
        requires
            old(self).wf(),
        ensures
            final(self).wf(),
            exists|now: i64, id: Seq<char>|
                now >= 0 && ids::is_uuid(id) && #[trigger] old(self)@.login_post(
                    req@,
                    now,
                    id,
                    final(self)@,
                    error::outcome(r),
                ),
    {
        let now: i64 = now_unix();
        let id = new_id();
        let ghost id_view = id@;
        let ghost req_view = req@;
        let r = self.resolve_login_at(req, now, id);
        assert(old(self)@.login_post(req_view, now, id_view, self@, error::outcome(r)));
        r
    }
}

// ---------------------------------------------------------------------------
// Users
// ---------------------------------------------------------------------------

/// The user that is made of an input.
pub open spec fn new_user(input: AddUserInputView, email: Seq<char>, id: Seq<char>) -> UserView {
    UserView {
        id,
        email,
        display_name: input.display_name,
        status: "active"@,
        last_login_at: 0,
    }
}

/// Why no invitation can be made of an input; none where one can.
pub open spec fn invitation_refusal(input: AddInvitationInputView) -> Option<CoreErrorView> {
    if text::trimmed(input.provider_id).len() == 0 || text::trimmed(input.issuer).len() == 0 {
        Some(CoreErrorView::InvalidArgument("provider_id, issuer, and email are required"@))
    } else {
        match email::valid_email(input.email) {
            Ok(_) => None,
            Err(e) => Some(e),
        }
    }
}

/// The user that an invitation waits for.
pub open spec fn invited_user(input: AddInvitationInputView, id: Seq<char>) -> UserView {
    UserView {
        id,
        email: text::trimmed(input.email),
        display_name: input.display_name,
        status: "pending"@,
        last_login_at: 0,
    }
}

/// The invitation that is made of an input.
pub open spec fn new_invitation(
    input: AddInvitationInputView,
    id: Seq<char>,
    user_id: Seq<char>,
) -> IdentityInvitationView {
    IdentityInvitationView {
        id,
        user_id,
        provider_id: input.provider_id,
        issuer: input.issuer,
        email: text::trimmed(input.email),
        binding_policy: if text::trimmed(input.binding_policy).len() == 0 {
            "verified_email_invitation"@
        } else {
            input.binding_policy
        },
        status: "pending"@,
        accepted_identity_id: Seq::empty(),
        expires_at: input.expires_at,
        accepted_at: 0,
    }
}

/// The user and the invitation that are made of an input.
pub(crate) fn build_invitation(
    input: AddInvitationInput,
    user_id: String,
    invitation_id: String,
) -> (r: Result<(User, IdentityInvitation), CoreError>)
    ensures
        match r {
            Ok((user, invitation)) => invitation_refusal(input@) is None && user@ == invited_user(
                input@,
                user_id@,
            ) && invitation@ == new_invitation(input@, invitation_id@, user_id@),
            Err(e) => invitation_refusal(input@) == Some(e@),
        },
{
    if is_blank(input.provider_id.as_str()) || is_blank(input.issuer.as_str()) {
        return Err(invalid("provider_id, issuer, and email are required"));
    }
    let email = match validated_account_email(input.email.as_str()) {
        Ok(email) => email,
        Err(e) => {
            return Err(e);
        },
    };
    let user = User {
        id: user_id.clone(),
        email: email.clone(),
        display_name: input.display_name,
        status: "pending".to_owned(),
        last_login_at: 0,
    };
    let binding_policy = if is_blank(input.binding_policy.as_str()) {
        "verified_email_invitation".to_owned()
    } else {
        input.binding_policy
    };
    let invitation = IdentityInvitation {
        id: invitation_id,
        user_id,
        provider_id: input.provider_id,
        issuer: input.issuer,
        email,
        binding_policy,
        status: "pending".to_owned(),
        accepted_identity_id: String::new(),
        expires_at: input.expires_at,
        accepted_at: 0,
    };
    assert(invitation.accepted_identity_id@ =~= Seq::<char>::empty());
    Ok((user, invitation))
}

impl StoreView {
    /// The store with one more user, or with the user changed.
    pub open spec fn with_user(self, user: UserView) -> StoreView {
        StoreView { users: self.users.insert(user.id, user), ..self }
    }

    /// The store with the status of a user changed.
    pub open spec fn with_status(self, k: Seq<char>, status: Seq<char>) -> StoreView {
        self.with_user(UserView { status, ..self.users[k] })
    }

    /// What is known of the user `user_id` in the terms of tokens.
    pub open spec fn principal(self, user_id: Seq<char>) -> Result<
        TokenPrincipalView,
        CoreErrorView,
    > {
        match self.active_user(user_id) {
            Ok(user) => Ok(accounts::principal_of(user, "bridge"@, self.member_list(user_id))),
            Err(e) => Err(e),
        }
    }

    /// Whether `jti` is a token that proves a login at the time `now`.
    pub open spec fn proves_login(self, jti: Seq<char>, now: i64) -> bool {
        &&& self.issued_tokens.contains_key(jti)
        &&& self.issued_tokens[jti].kind == "authn"@
        &&& self.issued_tokens[jti].expires_at > now
        &&& self.issued_tokens[jti].user_id.len() > 0
    }

    /// The user that the token `jti` proves the login of at the time `now`.
    pub open spec fn principal_of_token(self, jti: Seq<char>, now: i64) -> Result<
        TokenPrincipalView,
        CoreErrorView,
    > {
        let user_id = self.issued_tokens[jti].user_id;
        if self.proves_login(jti, now) && self.active_user(user_id) is Ok {
            self.principal(user_id)
        } else {
            Err(CoreErrorView::NotFound)
        }
    }

    /// The user with the identifier `id`, as long as the user is not deleted.
    pub open spec fn user(self, id: Seq<char>) -> Result<UserView, CoreErrorView> {
        if self.users.contains_key(id) && self.users[id].status != "deleted"@ {
            Ok(self.users[id])
        } else {
            Err(CoreErrorView::NotFound)
        }
    }

    /// The users that a query asks for: all that are not deleted, or those whose
    /// address or name holds the query.
    pub open spec fn users_found(self, query: Seq<char>) -> Set<UserView> {
        let q = text::lower(text::trimmed(query));
        Set::new(
            |u: UserView|
                {
                    &&& self.users.contains_key(u.id)
                    &&& self.users[u.id] == u
                    &&& user_found(u, q)
                },
        )
    }
}

/// Whether a user is one that the query `q` asks for.
pub open spec fn user_found(u: UserView, q: Seq<char>) -> bool {
    &&& u.status != "deleted"@
    &&& q.len() == 0 || text::has_text(email::normalized(u.email), q) || text::has_text(
        text::lower(u.display_name),
        q,
    )
}

/// What users are asked for by: a text in lower case.
struct UserQuery {
    text: String,
}

impl Pick<User> for UserQuery {
    closed spec fn picks(&self, v: UserView) -> bool {
        user_found(v, self.text@)
    }

    fn pick(&self, v: &User) -> (r: bool) {
        let q = self.text.as_str();
        !same(v.status.as_str(), "deleted") && (q.is_empty() || contains_text(
            normalize_email(v.email.as_str()).as_str(),
            q,
        ) || contains_text(v.display_name.as_str().to_ascii_lowercase().as_str(), q))
    }
}

impl Store {
    /// The user in the terms of tokens.
    pub fn principal_by_user_id(&self, user_id: &str) -> (r: Result<TokenPrincipal, CoreError>)
        requires
            self.wf(),
        ensures
            error::outcome(r) == self@.principal(user_id@),
    {
        match self.active_user(user_id) {
            Ok(user) => Ok(principal_from_user(user, "bridge", self.member_list(user_id))),
            Err(e) => Err(e),
        }
    }

    /// The user that the token `jti` proves the login of at the time `now`.
    pub fn principal_by_authn_token_jti_at(&self, jti: &str, now: i64) -> (r: Result<
        TokenPrincipal,
        CoreError,
    >)
        requires
            self.wf(),
        ensures
            error::outcome(r) == self@.principal_of_token(jti@, now),
    {
        let user_id = match self.issued_tokens.get(&jti.to_owned()) {
            Some(token) => if same(token.kind.as_str(), "authn") && token.expires_at > now
                && !token.user_id.is_empty() {
                token.user_id.clone()
            } else {
                return Err(CoreError::NotFound);
            },
            None => {
                return Err(CoreError::NotFound);
            },
        };
        match self.principal_by_user_id(user_id.as_str()) {
            Ok(principal) => Ok(principal),
            Err(_) => Err(CoreError::NotFound),
        }
    }

    /// The user that the token `jti` proves the login of.
    pub fn principal_by_authn_token_jti(&self, jti: &str) -> (r: Result<TokenPrincipal, CoreError>)
        requires
            self.wf(),
        ensures
            exists|now: i64|
                now >= 0 && error::outcome(r) == #[trigger] self@.principal_of_token(jti@, now),
    {
        let now: i64 = now_unix();
        self.principal_by_authn_token_jti_at(jti, now)
    }

    /// Adds a user with the identifier `id`.
    pub fn add_user_with_id(&mut self, input: AddUserInput, id: String) -> (r: Result<
        User,
        CoreError,
    >)
        requires
            old(self).wf(),
        ensures
            final(self).wf(),
            match email::valid_email(input@.email) {
                Ok(email) => {
                    &&& error::outcome(r) == Ok::<UserView, CoreErrorView>(
                        new_user(input@, email, id@),
                    )
                    &&& final(self)@ == old(self)@.with_user(new_user(input@, email, id@))
                },
                Err(e) => error::outcome(r) == Err::<UserView, CoreErrorView>(e) && final(self)@
                    == old(self)@,
            },
    {
        let email = match validated_account_email(input.email.as_str()) {
            Ok(email) => email,
            Err(e) => {
                return Err(e);
            },
        };
        let user = User {
            id,
            email,
            display_name: input.display_name,
            status: "active".to_owned(),
            last_login_at: 0,
        };
        self.put_user(user.clone());
        Ok(user)
    }

    /// Adds a user.
    pub fn add_user(&mut self, input: AddUserInput) -> (r: Result<User, CoreError>)
        requires
            old(self).wf(),
        ensures
            final(self).wf(),
            match email::valid_email(input@.email) {
                Ok(email) => r matches Ok(user) && ids::is_uuid(user.id@) && user@ == new_user(
                    input@,
                    email,
                    user.id@,
                ) && final(self)@ == old(self)@.with_user(user@),
                Err(e) => error::outcome(r) == Err::<UserView, CoreErrorView>(e) && final(self)@
                    == old(self)@,
            },
    {
        let id = new_id();
        self.add_user_with_id(input, id)
    }

    /// The user with the identifier `id`, whatever the status.
    pub(crate) fn get_user(&self, id: &str) -> (r: Option<User>)
        requires
            self.wf(),
        ensures
            match r {
                Some(user) => self@.users.contains_key(id@) && user@ == self@.users[id@],
                None => !self@.users.contains_key(id@),
            },
    {
        match self.users.get(&id.to_owned()) {
            Some(user) => Some(user.clone()),
            None => None,
        }
    }

    /// Puts a user into the store, in place of one with the same identifier.
    pub(crate) fn put_user(&mut self, user: User)
        requires
            old(self).wf(),
        ensures
            final(self).wf(),
            final(self)@ == old(self)@.with_user(user@),
    {
        let ghost before = self@;
        let id = user.id.clone();
        let ghost view = user@;
        self.users.insert(id, user);
        assert(self@ =~= before.with_user(view));
    }

    /// Puts an invitation into the store.
    pub(crate) fn put_invitation(&mut self, invitation: IdentityInvitation)
        requires
            old(self).wf(),
        ensures
            final(self).wf(),
            final(self)@ == (StoreView {
                invitations: old(self)@.invitations.insert(invitation@.id, invitation@),
                ..old(self)@
            }),
    {
        let ghost before = self@;
        let id = invitation.id.clone();
        let ghost view = invitation@;
        self.invitations.insert(id, invitation);
        assert(self@ =~= (StoreView {
            invitations: before.invitations.insert(view.id, view),
            ..before
        }));
    }

    /// Invites somebody: adds a user who is pending, and an invitation for them.
    pub fn add_invitation_with_ids(
        &mut self,
        input: AddInvitationInput,
        user_id: String,
        invitation_id: String,
    ) -> (r: Result<(User, IdentityInvitation), CoreError>)
        requires
            old(self).wf(),
        ensures
            final(self).wf(),
            match r {
                Ok((user, invitation)) => invitation_refusal(input@) is None && user@
                    == invited_user(input@, user_id@) && invitation@ == new_invitation(
                    input@,
                    invitation_id@,
                    user_id@,
                ) && final(self)@ == old(self)@.with_invitation(user@, invitation@),
                Err(e) => invitation_refusal(input@) == Some(e@) && final(self)@ == old(self)@,
            },
    {
        match build_invitation(input, user_id, invitation_id) {
            Err(e) => Err(e),
            Ok((user, invitation)) => {
                self.put_user(user.clone());
                self.put_invitation(invitation.clone());
                Ok((user, invitation))
            },
        }
    }

    /// Invites somebody.
    pub fn add_invitation(&mut self, input: AddInvitationInput) -> (r: Result<
        (User, IdentityInvitation),
        CoreError,
    >)
        requires
            old(self).wf(),
        ensures
            final(self).wf(),
            match r {
                Ok((user, invitation)) => invitation_refusal(input@) is None && ids::is_uuid(
                    user@.id,
                ) && ids::is_uuid(invitation@.id) && user@ == invited_user(input@, user@.id)
                    && invitation@ == new_invitation(input@, invitation@.id, user@.id)
                    && final(self)@ == old(self)@.with_invitation(user@, invitation@),
                Err(e) => invitation_refusal(input@) == Some(e@) && final(self)@ == old(self)@,
            },
    {
        let user_id = new_id();
        let invitation_id = new_id();
        self.add_invitation_with_ids(input, user_id, invitation_id)
    }

    /// Shuts a user out.
    pub fn disable_user(&mut self, who: &str) -> (r: Result<(), CoreError>)
        requires
            old(self).wf(),
        ensures
            final(self).wf(),
            match r {
                Ok(_) => exists|k: Seq<char>| #[trigger]
                    old(self)@.is_user(k, who@) && final(self)@ == old(self)@.with_status(
                        k,
                        "disabled"@,
                    ),
                Err(e) => e@ == CoreErrorView::NotFound && !old(self)@.has_user(who@)
                    && final(self)@ == old(self)@,
            },
    {
        match self.resolve_user_id(who) {
            Err(e) => Err(e),
            Ok(user_id) => {
                let mut user = match self.users.get(&user_id) {
                    Some(user) => user.clone(),
                    None => {
                        return Err(CoreError::NotFound);
                    },
                };
                assert(self@.is_user(user_id@, who@));
                user.status = "disabled".to_owned();
                self.put_user(user);
                Ok(())
            },
        }
    }

    /// Lets a user in again, unless the user was deleted.
    pub fn enable_user(&mut self, who: &str) -> (r: Result<(), CoreError>)
        requires
            old(self).wf(),
        ensures
            final(self).wf(),
            match r {
                Ok(_) => exists|k: Seq<char>| #[trigger]
                    old(self)@.is_user(k, who@) && old(self)@.users[k].status != "deleted"@
                        && final(self)@ == old(self)@.with_status(k, "active"@),
                Err(e) => e@ == CoreErrorView::NotFound && final(self)@ == old(self)@ && (
                !old(self)@.has_user(who@) || exists|k: Seq<char>| #[trigger]
                    old(self)@.is_user(k, who@) && old(self)@.users[k].status == "deleted"@),
            },
    {
        match self.resolve_user_id(who) {
            Err(e) => Err(e),
            Ok(user_id) => {
                let mut user = match self.users.get(&user_id) {
                    Some(user) => user.clone(),
                    None => {
                        return Err(CoreError::NotFound);
                    },
                };
                assert(self@.is_user(user_id@, who@));
                if same(user.status.as_str(), "deleted") {
                    return Err(CoreError::NotFound);
                }
                user.status = "active".to_owned();
                self.put_user(user);
                Ok(())
            },
        }
    }

    /// The user with the identifier `user_id`.
    pub fn user_by_id(&self, user_id: &str) -> (r: Result<User, CoreError>)
        requires
            self.wf(),
        ensures
            error::outcome(r) == self@.user(user_id@),
    {
        match self.users.get(&user_id.to_owned()) {
            Some(user) => if same(user.status.as_str(), "deleted") {
                Err(CoreError::NotFound)
            } else {
                Ok(user.clone())
            },
            None => Err(CoreError::NotFound),
        }
    }

    /// The first of the users that a query asks for, by address.
    pub fn list_users(&self, filter: UserListFilter) -> (r: Result<Vec<User>, CoreError>)
        requires
            self.wf(),
        ensures
            r matches Ok(out) && exists|all: Seq<UserView>| #[trigger]
                order::is_listing::<User>(all, self@.users_found(filter@.query)) && order::views(
                    out@,
                ) == all.take(
                    if all.len() <= accounts::limit_of(filter@.limit) {
                        all.len() as int
                    } else {
                        accounts::limit_of(filter@.limit) as int
                    },
                ),
    {
        let limit: usize = effective_limit(filter.limit);
        let query = UserQuery { text: filter.query.as_str().trim().to_ascii_lowercase() };
        let found = self.users.select(&query);
        let ghost list = order::views(found@);
        proof {
            let set = self@.users_found(filter@.query);
            assert forall|u: UserView| list.to_set().contains(u) <==> set.contains(u) by {
                if set.contains(u) {
                    assert(self@.users.contains_key(u.id));
                }
            }
            assert(list.to_set() =~= set);
        }
        let mut out = sort(found);
        let ghost all = order::views(out@);
        proof {
            order::lemma_sorted_copy::<User>(all, list);
            assert(order::is_listing::<User>(all, self@.users_found(filter@.query)));
        }
        if limit < out.len() {
            out.truncate(limit);
        }
        assert(order::views(out@) =~= all.take(
            if all.len() <= limit {
                all.len() as int
            } else {
                limit as int
            },
        ));
        Ok(out)
    }
}

impl StoreView {
    /// The store with one more user and an invitation for them.
    pub open spec fn with_invitation(
        self,
        user: UserView,
        invitation: IdentityInvitationView,
    ) -> StoreView {
        StoreView {
            users: self.users.insert(user.id, user),
            invitations: self.invitations.insert(invitation.id, invitation),
            ..self
        }
    }
}

} // verus!
