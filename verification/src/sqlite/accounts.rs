//! Users, their identities and invitations.

use vstd::prelude::*;

use crate::accounts;
use crate::accounts::{allows_verified_email_invitation_binding, principal_from_user};
use crate::email;
use crate::email::{email_domain_allowed, normalize_email, validated_account_email};
use crate::error;
use crate::error::{invalid, CoreError, CoreErrorView};
use crate::ids;
use crate::ids::new_id;
use crate::model::{
    AddInvitationInput, AddInvitationInputView, AddUserInput, AddUserInputView, ExternalIdentity,
    ExternalIdentityView, IdentityInvitation, IdentityInvitationView, LoginBindingResult,
    LoginBindingResultView, LoginTrustPolicy, LoginTrustPolicyView, TokenPrincipal,
    TokenPrincipalView, User, UserView,
};
use crate::sqlite;
use crate::sqlite::{
    bool_to_i64, none_i64_if_zero, none_if_empty, or_empty, or_zero, DEFAULT_SUBJECT_STRATEGY,
    VERIFIED_EMAIL_INVITATION,
};
use crate::text;
use crate::text::{is_blank, same};

verus! {

/// A user as it is stored.
#[derive(Debug, PartialEq, Eq)]
pub struct UserRow {
    pub id: String,
    pub primary_email: Option<String>,
    pub primary_email_normalized: Option<String>,
    pub display_name: Option<String>,
    pub status: String,
    pub created_at: i64,
    pub updated_at: i64,
}

/// The view of [`UserRow`].
#[verifier::ext_equal]
pub struct UserRowView {
    pub id: Seq<char>,
    pub primary_email: Option<Seq<char>>,
    pub primary_email_normalized: Option<Seq<char>>,
    pub display_name: Option<Seq<char>>,
    pub status: Seq<char>,
    pub created_at: i64,
    pub updated_at: i64,
}

impl View for UserRow {
    type V = UserRowView;

    open spec fn view(&self) -> UserRowView {
        UserRowView {
            id: self.id@,
            primary_email: text::opt_text(self.primary_email),
            primary_email_normalized: text::opt_text(self.primary_email_normalized),
            display_name: text::opt_text(self.display_name),
            status: self.status@,
            created_at: self.created_at,
            updated_at: self.updated_at,
        }
    }
}

/// An invitation as it is stored.
#[derive(Debug, PartialEq, Eq)]
pub struct InvitationRow {
    pub id: String,
    pub user_id: String,
    pub provider_id: String,
    pub issuer: String,
    pub email: Option<String>,
    pub email_normalized: Option<String>,
    pub binding_policy: String,
    pub status: String,
    pub created_at: i64,
    pub expires_at: Option<i64>,
}

/// The view of [`InvitationRow`].
#[verifier::ext_equal]
pub struct InvitationRowView {
    pub id: Seq<char>,
    pub user_id: Seq<char>,
    pub provider_id: Seq<char>,
    pub issuer: Seq<char>,
    pub email: Option<Seq<char>>,
    pub email_normalized: Option<Seq<char>>,
    pub binding_policy: Seq<char>,
    pub status: Seq<char>,
    pub created_at: i64,
    pub expires_at: Option<i64>,
}

impl View for InvitationRow {
    type V = InvitationRowView;

    open spec fn view(&self) -> InvitationRowView {
        InvitationRowView {
            id: self.id@,
            user_id: self.user_id@,
            provider_id: self.provider_id@,
            issuer: self.issuer@,
            email: text::opt_text(self.email),
            email_normalized: text::opt_text(self.email_normalized),
            binding_policy: self.binding_policy@,
            status: self.status@,
            created_at: self.created_at,
            expires_at: self.expires_at,
        }
    }
}

/// An identity as it is stored.
#[derive(Debug, PartialEq, Eq)]
pub struct IdentityRow {
    pub id: String,
    pub user_id: String,
    pub provider_id: String,
    pub issuer: String,
    pub subject: String,
    pub subject_strategy: String,
    pub email: Option<String>,
    pub email_verified: i64,
    pub display_name: Option<String>,
    pub picture_url: Option<String>,
    pub hosted_domain: Option<String>,
    pub status: String,
    pub first_seen_at: i64,
    pub last_seen_at: i64,
}

/// The view of [`IdentityRow`].
#[verifier::ext_equal]
pub struct IdentityRowView {
    pub id: Seq<char>,
    pub user_id: Seq<char>,
    pub provider_id: Seq<char>,
    pub issuer: Seq<char>,
    pub subject: Seq<char>,
    pub subject_strategy: Seq<char>,
    pub email: Option<Seq<char>>,
    pub email_verified: i64,
    pub display_name: Option<Seq<char>>,
    pub picture_url: Option<Seq<char>>,
    pub hosted_domain: Option<Seq<char>>,
    pub status: Seq<char>,
    pub first_seen_at: i64,
    pub last_seen_at: i64,
}

impl View for IdentityRow {
    type V = IdentityRowView;

    open spec fn view(&self) -> IdentityRowView {
        IdentityRowView {
            id: self.id@,
            user_id: self.user_id@,
            provider_id: self.provider_id@,
            issuer: self.issuer@,
            subject: self.subject@,
            subject_strategy: self.subject_strategy@,
            email: text::opt_text(self.email),
            email_verified: self.email_verified,
            display_name: text::opt_text(self.display_name),
            picture_url: text::opt_text(self.picture_url),
            hosted_domain: text::opt_text(self.hosted_domain),
            status: self.status@,
            first_seen_at: self.first_seen_at,
            last_seen_at: self.last_seen_at,
        }
    }
}

/// What an identity is found by.
#[derive(Debug, PartialEq, Eq)]
pub struct LoginKey {
    pub provider_id: String,
    pub issuer: String,
    pub subject: String,
}

/// The view of [`LoginKey`].
#[verifier::ext_equal]
pub struct LoginKeyView {
    pub provider_id: Seq<char>,
    pub issuer: Seq<char>,
    pub subject: Seq<char>,
}

impl View for LoginKey {
    type V = LoginKeyView;

    open spec fn view(&self) -> LoginKeyView {
        LoginKeyView {
            provider_id: self.provider_id@,
            issuer: self.issuer@,
            subject: self.subject@,
        }
    }
}

/// What an invitation is found by.
#[derive(Debug, PartialEq, Eq)]
pub struct InvitationSearch {
    pub provider_id: String,
    pub issuer: String,
    pub email_normalized: String,
    pub binding_policy: String,
}

/// The view of [`InvitationSearch`].
#[verifier::ext_equal]
pub struct InvitationSearchView {
    pub provider_id: Seq<char>,
    pub issuer: Seq<char>,
    pub email_normalized: Seq<char>,
    pub binding_policy: Seq<char>,
}

impl View for InvitationSearch {
    type V = InvitationSearchView;

    open spec fn view(&self) -> InvitationSearchView {
        InvitationSearchView {
            provider_id: self.provider_id@,
            issuer: self.issuer@,
            email_normalized: self.email_normalized@,
            binding_policy: self.binding_policy@,
        }
    }
}

/// What a user gets from the login that accepts an invitation.
#[derive(Debug, PartialEq, Eq)]
pub struct BoundUser {
    pub primary_email: String,
    pub primary_email_normalized: String,
    pub display_name: Option<String>,
}

/// The view of [`BoundUser`].
#[verifier::ext_equal]
pub struct BoundUserView {
    pub primary_email: Seq<char>,
    pub primary_email_normalized: Seq<char>,
    pub display_name: Option<Seq<char>>,
}

impl View for BoundUser {
    type V = BoundUserView;

    open spec fn view(&self) -> BoundUserView {
        BoundUserView {
            primary_email: self.primary_email@,
            primary_email_normalized: self.primary_email_normalized@,
            display_name: text::opt_text(self.display_name),
        }
    }
}

// ---------------------------------------------------------------------------
// New users and invitations
// ---------------------------------------------------------------------------

/// A new user.
pub open spec fn new_user_of(input: AddUserInputView, email: Seq<char>, id: Seq<char>) -> UserView {
    UserView {
        id,
        email,
        display_name: input.display_name,
        status: "active"@,
        last_login_at: 0,
    }
}

/// A user as it is stored.
pub open spec fn row_of_user(user: UserView, now: i64) -> UserRowView {
    UserRowView {
        id: user.id,
        primary_email: sqlite::stored(user.email),
        primary_email_normalized: sqlite::stored(email::normalized(user.email)),
        display_name: sqlite::stored(user.display_name),
        status: user.status,
        created_at: now,
        updated_at: now,
    }
}

/// A new user under this identifier.
pub fn new_user_with_id(input: AddUserInput, id: String) -> (r: Result<User, CoreError>)
    ensures
        error::outcome(r) == match email::valid_email(input@.email) {
            Ok(email) => Ok::<UserView, CoreErrorView>(new_user_of(input@, email, id@)),
            Err(e) => Err(e),
        },
{
    let email = match validated_account_email(input.email.as_str()) {
        Ok(email) => email,
        Err(e) => return Err(e),
    };
    Ok(
        User {
            id,
            email,
            display_name: input.display_name,
            status: "active".to_owned(),
            last_login_at: 0,
        },
    )
}

/// A new user.
pub fn new_user(input: AddUserInput) -> (r: Result<User, CoreError>)
    ensures
        match r {
            Ok(user) => {
                &&& ids::is_uuid(user@.id)
                &&& email::valid_email(input@.email) matches Ok(email) && user@ == new_user_of(
                    input@,
                    email,
                    user@.id,
                )
            },
            Err(e) => email::valid_email(input@.email) matches Err(m) && e@ == m,
        },
{
    new_user_with_id(input, new_id())
}

/// A user as it is stored.
pub fn user_row(user: &User, now: i64) -> (r: UserRow)
    ensures
        r@ == row_of_user(user@, now),
{
    UserRow {
        id: user.id.clone(),
        primary_email: none_if_empty(user.email.as_str()),
        primary_email_normalized: none_if_empty(normalize_email(user.email.as_str()).as_str()),
        display_name: none_if_empty(user.display_name.as_str()),
        status: user.status.clone(),
        created_at: now,
        updated_at: now,
    }
}

/// Why an invitation is refused.
pub open spec fn invitation_refusal(input: AddInvitationInputView) -> Option<CoreErrorView> {
    match email::valid_email(input.email) {
        Err(e) => Some(e),
        Ok(email) => if text::trimmed(input.provider_id).len() == 0 || text::trimmed(
            input.issuer,
        ).len() == 0 || email::normalized(email).len() == 0 {
            Some(CoreErrorView::InvalidArgument("provider_id, issuer, and email are required"@))
        } else {
            None
        },
    }
}

/// The user that an invitation is for.
pub open spec fn invited_user(input: AddInvitationInputView, id: Seq<char>) -> UserView {
    UserView {
        id,
        email: email::valid_email(input.email)->Ok_0,
        display_name: input.display_name,
        status: "pending"@,
        last_login_at: 0,
    }
}

/// A new invitation for a user.
pub open spec fn invitation_of(
    input: AddInvitationInputView,
    user_id: Seq<char>,
    id: Seq<char>,
) -> IdentityInvitationView {
    IdentityInvitationView {
        id,
        user_id,
        provider_id: text::trimmed(input.provider_id),
        issuer: text::trimmed(input.issuer),
        email: email::valid_email(input.email)->Ok_0,
        binding_policy: if text::trimmed(input.binding_policy).len() == 0 {
            VERIFIED_EMAIL_INVITATION@
        } else {
            text::trimmed(input.binding_policy)
        },
        status: "pending"@,
        accepted_identity_id: Seq::empty(),
        expires_at: input.expires_at,
        accepted_at: 0,
    }
}

/// An invitation as it is stored.
pub open spec fn row_of_invitation(i: IdentityInvitationView, now: i64) -> InvitationRowView {
    InvitationRowView {
        id: i.id,
        user_id: i.user_id,
        provider_id: i.provider_id,
        issuer: i.issuer,
        email: sqlite::stored(i.email),
        email_normalized: sqlite::stored(email::normalized(i.email)),
        binding_policy: i.binding_policy,
        status: i.status,
        created_at: now,
        expires_at: if i.expires_at == 0 {
            None
        } else {
            Some(i.expires_at)
        },
    }
}

/// A new invitation, and the user that it is for, under these identifiers.
pub fn new_invitation_with_ids(
    input: AddInvitationInput,
    user_id: String,
    invitation_id: String,
) -> (r: Result<(User, IdentityInvitation), CoreError>)
    ensures
        match r {
            Ok((user, invitation)) => {
                &&& invitation_refusal(input@) is None
                &&& user@ == invited_user(input@, user_id@)
                &&& invitation@ == invitation_of(input@, user_id@, invitation_id@)
            },
            Err(e) => invitation_refusal(input@) == Some(e@),
        },
{
    let email = match validated_account_email(input.email.as_str()) {
        Ok(email) => email,
        Err(e) => return Err(e),
    };
    if is_blank(input.provider_id.as_str()) || is_blank(input.issuer.as_str()) || normalize_email(
        email.as_str(),
    ).is_empty() {
        return Err(invalid("provider_id, issuer, and email are required"));
    }
    let binding_policy = if is_blank(input.binding_policy.as_str()) {
        VERIFIED_EMAIL_INVITATION.to_owned()
    } else {
        input.binding_policy.as_str().trim().to_owned()
    };
    let user = User {
        id: user_id.clone(),
        email: email.clone(),
        display_name: input.display_name,
        status: "pending".to_owned(),
        last_login_at: 0,
    };
    let invitation = IdentityInvitation {
        id: invitation_id,
        user_id,
        provider_id: input.provider_id.as_str().trim().to_owned(),
        issuer: input.issuer.as_str().trim().to_owned(),
        email,
        binding_policy,
        status: "pending".to_owned(),
        accepted_identity_id: String::new(),
        expires_at: input.expires_at,
        accepted_at: 0,
    };
    assert(invitation.accepted_identity_id@ =~= Seq::<char>::empty());
    Ok((user, invitation))
}

/// A new invitation, and the user that it is for.
pub fn new_invitation(input: AddInvitationInput) -> (r: Result<
    (User, IdentityInvitation),
    CoreError,
>)
    ensures
        match r {
            Ok((user, invitation)) => {
                &&& invitation_refusal(input@) is None
                &&& ids::is_uuid(user@.id)
                &&& ids::is_uuid(invitation@.id)
                &&& user@ == invited_user(input@, user@.id)
                &&& invitation@ == invitation_of(input@, user@.id, invitation@.id)
            },
            Err(e) => invitation_refusal(input@) == Some(e@),
        },
{
    new_invitation_with_ids(input, new_id(), new_id())
}

/// An invitation as it is stored.
pub fn invitation_row(i: &IdentityInvitation, now: i64) -> (r: InvitationRow)
    ensures
        r@ == row_of_invitation(i@, now),
{
    InvitationRow {
        id: i.id.clone(),
        user_id: i.user_id.clone(),
        provider_id: i.provider_id.clone(),
        issuer: i.issuer.clone(),
        email: none_if_empty(i.email.as_str()),
        email_normalized: none_if_empty(normalize_email(i.email.as_str()).as_str()),
        binding_policy: i.binding_policy.clone(),
        status: i.status.clone(),
        created_at: now,
        expires_at: none_i64_if_zero(i.expires_at),
    }
}

// ---------------------------------------------------------------------------
// Logging in
// ---------------------------------------------------------------------------

/// What a login is found by.
pub open spec fn key_of(identity: ExternalIdentityView) -> Result<LoginKeyView, CoreErrorView> {
    let key = LoginKeyView {
        provider_id: text::trimmed(identity.provider_id),
        issuer: text::trimmed(identity.issuer),
        subject: text::trimmed(identity.subject),
    };
    if key.provider_id.len() == 0 || key.issuer.len() == 0 || key.subject.len() == 0 {
        Err(CoreErrorView::InvalidArgument("provider_id, issuer, and subject are required"@))
    } else {
        Ok(key)
    }
}

/// What a login is found by.
pub fn login_key(identity: &ExternalIdentity) -> (r: Result<LoginKey, CoreError>)
    ensures
        error::outcome(r) == key_of(identity@),
{
    if is_blank(identity.provider_id.as_str()) || is_blank(identity.issuer.as_str()) || is_blank(
        identity.subject.as_str(),
    ) {
        return Err(invalid("provider_id, issuer, and subject are required"));
    }
    Ok(
        LoginKey {
            provider_id: identity.provider_id.as_str().trim().to_owned(),
            issuer: identity.issuer.as_str().trim().to_owned(),
            subject: identity.subject.as_str().trim().to_owned(),
        },
    )
}

/// Fails for a user who may not log in.
pub fn active_user(user: &User) -> (r: Result<(), CoreError>)
    ensures
        match r {
            Ok(()) => user@.status == "active"@,
            Err(e) => user@.status != "active"@ && e@ == CoreErrorView::PermissionDenied,
        },
{
    if same(user.status.as_str(), "active") {
        Ok(())
    } else {
        Err(CoreError::PermissionDenied)
    }
}

/// What comes of a login with a known identity.
pub open spec fn known_login(
    user: UserView,
    existing: ExternalIdentityView,
    groups: Seq<Seq<char>>,
) -> Result<(TokenPrincipalView, LoginBindingResultView), CoreErrorView> {
    if user.status != "active"@ {
        Err(CoreErrorView::PermissionDenied)
    } else {
        Ok(
            (
                accounts::principal_of(user, existing.provider_id, groups),
                LoginBindingResultView {
                    status: "existing"@,
                    external_identity_id: existing.id,
                    invitation_id: Seq::empty(),
                },
            ),
        )
    }
}

/// What comes of a login with a known identity.
pub fn existing_login(user: &User, existing: ExternalIdentity, groups: Vec<String>) -> (r: Result<
    (TokenPrincipal, LoginBindingResult),
    CoreError,
>)
    ensures
        error::outcome(r) == known_login(user@, existing@, text::texts(groups@)),
{
    if let Err(e) = active_user(user) {
        return Err(e);
    }
    let principal = principal_from_user(user, existing.provider_id.as_str(), groups);
    let binding = LoginBindingResult {
        status: "existing".to_owned(),
        external_identity_id: existing.id,
        invitation_id: String::new(),
    };
    assert(binding.invitation_id@ =~= Seq::<char>::empty());
    Ok((principal, binding))
}

/// Which invitation a login with an unknown identity could accept, if any.
pub open spec fn search_for(
    identity: ExternalIdentityView,
    policy: LoginTrustPolicyView,
    key: LoginKeyView,
) -> Result<InvitationSearchView, CoreErrorView> {
    if identity.email_verified && text::trimmed(identity.email).len() > 0
        && accounts::binds_by_email(policy) && email::domain_allowed(
        email::normalized(identity.email),
        policy.allowed_email_domains,
    ) {
        Ok(
            InvitationSearchView {
                provider_id: key.provider_id,
                issuer: key.issuer,
                email_normalized: email::normalized(identity.email),
                binding_policy: VERIFIED_EMAIL_INVITATION@,
            },
        )
    } else {
        Err(CoreErrorView::NotFound)
    }
}

/// Which invitation a login with an unknown identity could accept, if any.
pub fn invitation_search(
    identity: &ExternalIdentity,
    policy: &LoginTrustPolicy,
    key: &LoginKey,
) -> (r: Result<InvitationSearch, CoreError>)
    ensures
        error::outcome(r) == search_for(identity@, policy@, key@),
{
    if !identity.email_verified || is_blank(identity.email.as_str()) {
        return Err(CoreError::NotFound);
    }
    if !allows_verified_email_invitation_binding(policy) {
        return Err(CoreError::NotFound);
    }
    let email_normalized = normalize_email(identity.email.as_str());
    if !email_domain_allowed(email_normalized.as_str(), &policy.allowed_email_domains) {
        return Err(CoreError::NotFound);
    }
    Ok(
        InvitationSearch {
            provider_id: key.provider_id.clone(),
            issuer: key.issuer.clone(),
            email_normalized,
            binding_policy: VERIFIED_EMAIL_INVITATION.to_owned(),
        },
    )
}

/// The identity that a login gets by accepting an invitation.
pub open spec fn bound(
    identity: ExternalIdentityView,
    key: LoginKeyView,
    user_id: Seq<char>,
    id: Seq<char>,
) -> ExternalIdentityView {
    ExternalIdentityView {
        id,
        user_id,
        provider_id: key.provider_id,
        issuer: key.issuer,
        subject: key.subject,
        subject_strategy: if text::trimmed(identity.subject_strategy).len() == 0 {
            DEFAULT_SUBJECT_STRATEGY@
        } else {
            identity.subject_strategy
        },
        email: text::trimmed(identity.email),
        email_verified: identity.email_verified,
        display_name: identity.display_name,
        picture_url: identity.picture_url,
        hosted_domain: identity.hosted_domain,
        status: "active"@,
    }
}

/// The identity that a login gets by accepting an invitation, under this
/// identifier.
pub fn bind_identity_with_id(
    identity: ExternalIdentity,
    key: LoginKey,
    user_id: &str,
    id: String,
) -> (r: ExternalIdentity)
    ensures
        r@ == bound(identity@, key@, user_id@, id@),
{
    let subject_strategy = if is_blank(identity.subject_strategy.as_str()) {
        DEFAULT_SUBJECT_STRATEGY.to_owned()
    } else {
        identity.subject_strategy
    };
    ExternalIdentity {
        id,
        user_id: user_id.to_owned(),
        provider_id: key.provider_id,
        issuer: key.issuer,
        subject: key.subject,
        subject_strategy,
        email: identity.email.as_str().trim().to_owned(),
        email_verified: identity.email_verified,
        display_name: identity.display_name,
        picture_url: identity.picture_url,
        hosted_domain: identity.hosted_domain,
        status: "active".to_owned(),
    }
}

/// An identity as it is stored.
pub open spec fn row_of_identity(e: ExternalIdentityView, now: i64) -> IdentityRowView {
    IdentityRowView {
        id: e.id,
        user_id: e.user_id,
        provider_id: e.provider_id,
        issuer: e.issuer,
        subject: e.subject,
        subject_strategy: e.subject_strategy,
        email: sqlite::stored(e.email),
        email_verified: if e.email_verified {
            1
        } else {
            0
        },
        display_name: sqlite::stored(e.display_name),
        picture_url: sqlite::stored(e.picture_url),
        hosted_domain: sqlite::stored(e.hosted_domain),
        status: e.status,
        first_seen_at: now,
        last_seen_at: now,
    }
}

/// An identity as it is stored.
pub fn identity_row(e: &ExternalIdentity, now: i64) -> (r: IdentityRow)
    ensures
        r@ == row_of_identity(e@, now),
{
    IdentityRow {
        id: e.id.clone(),
        user_id: e.user_id.clone(),
        provider_id: e.provider_id.clone(),
        issuer: e.issuer.clone(),
        subject: e.subject.clone(),
        subject_strategy: e.subject_strategy.clone(),
        email: none_if_empty(e.email.as_str()),
        email_verified: bool_to_i64(e.email_verified),
        display_name: none_if_empty(e.display_name.as_str()),
        picture_url: none_if_empty(e.picture_url.as_str()),
        hosted_domain: none_if_empty(e.hosted_domain.as_str()),
        status: e.status.clone(),
        first_seen_at: now,
        last_seen_at: now,
    }
}

/// What the user gets from the login that accepts an invitation.
pub open spec fn bound_user_of(
    e: ExternalIdentityView,
    invitation: IdentityInvitationView,
) -> BoundUserView {
    BoundUserView {
        primary_email: e.email,
        primary_email_normalized: email::normalized(e.email),
        display_name: sqlite::stored(
            if e.display_name.len() == 0 {
                invitation.email
            } else {
                e.display_name
            },
        ),
    }
}

/// What the user gets from the login that accepts an invitation.
pub fn bound_user(e: &ExternalIdentity, invitation: &IdentityInvitation) -> (r: BoundUser)
    ensures
        r@ == bound_user_of(e@, invitation@),
{
    let display_name = if e.display_name.is_empty() {
        invitation.email.as_str()
    } else {
        e.display_name.as_str()
    };
    BoundUser {
        primary_email: e.email.clone(),
        primary_email_normalized: normalize_email(e.email.as_str()),
        display_name: none_if_empty(display_name),
    }
}

/// What comes of a login that accepted an invitation.
pub fn bound_login(
    user: &User,
    e: ExternalIdentity,
    invitation: IdentityInvitation,
    groups: Vec<String>,
) -> (r: (TokenPrincipal, LoginBindingResult))
    ensures
        r.0@ == accounts::principal_of(user@, e@.provider_id, text::texts(groups@)),
        r.1@ == (LoginBindingResultView {
            status: "bound_invitation"@,
            external_identity_id: e@.id,
            invitation_id: invitation@.id,
        }),
{
    let principal = principal_from_user(user, e.provider_id.as_str(), groups);
    let binding = LoginBindingResult {
        status: "bound_invitation".to_owned(),
        external_identity_id: e.id,
        invitation_id: invitation.id,
    };
    (principal, binding)
}

// ---------------------------------------------------------------------------
// What is read
// ---------------------------------------------------------------------------

/// An identity as it is read.
pub open spec fn identity_in(row: IdentityRowView) -> ExternalIdentityView {
    ExternalIdentityView {
        id: row.id,
        user_id: row.user_id,
        provider_id: row.provider_id,
        issuer: row.issuer,
        subject: row.subject,
        subject_strategy: row.subject_strategy,
        email: sqlite::read_back(row.email),
        email_verified: row.email_verified != 0,
        display_name: sqlite::read_back(row.display_name),
        picture_url: sqlite::read_back(row.picture_url),
        hosted_domain: sqlite::read_back(row.hosted_domain),
        status: row.status,
    }
}

/// An identity as it is read.
pub fn external_identity_from_row(row: IdentityRow) -> (r: ExternalIdentity)
    ensures
        r@ == identity_in(row@),
{
    ExternalIdentity {
        id: row.id,
        user_id: row.user_id,
        provider_id: row.provider_id,
        issuer: row.issuer,
        subject: row.subject,
        subject_strategy: row.subject_strategy,
        email: or_empty(row.email),
        email_verified: row.email_verified != 0,
        display_name: or_empty(row.display_name),
        picture_url: or_empty(row.picture_url),
        hosted_domain: or_empty(row.hosted_domain),
        status: row.status,
    }
}

/// An invitation as it is read.
pub fn identity_invitation_from_row(
    row: InvitationRow,
    accepted_identity_id: Option<String>,
    accepted_at: Option<i64>,
) -> (r: IdentityInvitation)
    ensures
        r@ == (IdentityInvitationView {
            id: row@.id,
            user_id: row@.user_id,
            provider_id: row@.provider_id,
            issuer: row@.issuer,
            email: sqlite::read_back(row@.email),
            binding_policy: row@.binding_policy,
            status: row@.status,
            accepted_identity_id: sqlite::read_back(text::opt_text(accepted_identity_id)),
            expires_at: match row@.expires_at {
                Some(t) => t,
                None => 0,
            },
            accepted_at: match accepted_at {
                Some(t) => t,
                None => 0,
            },
        }),
{
    IdentityInvitation {
        id: row.id,
        user_id: row.user_id,
        provider_id: row.provider_id,
        issuer: row.issuer,
        email: or_empty(row.email),
        binding_policy: row.binding_policy,
        status: row.status,
        accepted_identity_id: or_empty(accepted_identity_id),
        expires_at: or_zero(row.expires_at),
        accepted_at: or_zero(accepted_at),
    }
}

// ---------------------------------------------------------------------------
// What holds of all of it
// ---------------------------------------------------------------------------

/// The identity that a login gets by accepting an invitation is the one that the
/// same login is found by from then on, and it is active.
pub proof fn law_bound_identity_is_found_by_its_login(
    identity: ExternalIdentityView,
    user_id: Seq<char>,
    id: Seq<char>,
    now: i64,
)
    requires
        key_of(identity) is Ok,
    ensures
        ({
            let key = key_of(identity)->Ok_0;
            let row = row_of_identity(bound(identity, key, user_id, id), now);
            &&& row.provider_id == key.provider_id
            &&& row.issuer == key.issuer
            &&& row.subject == key.subject
            &&& row.status == "active"@
            &&& identity_in(row).user_id == user_id
            &&& identity_in(row).email == text::trimmed(identity.email)
        }),
{
    let key = key_of(identity)->Ok_0;
    let e = bound(identity, key, user_id, id);
    sqlite::law_stored_text_is_read_back(e.email);
    text::lemma_trimmed_twice(identity.email);
}

/// An invitation is found by the logins that it was made for: those with the
/// same provider, issuer and address, in whatever case and with whatever
/// whitespace around.
pub proof fn law_invitation_is_found_by_its_login(
    input: AddInvitationInputView,
    user_id: Seq<char>,
    id: Seq<char>,
    now: i64,
    identity: ExternalIdentityView,
    policy: LoginTrustPolicyView,
)
    requires
        invitation_refusal(input) is None,
        key_of(identity) is Ok,
        search_for(identity, policy, key_of(identity)->Ok_0) is Ok,
        text::trimmed(identity.provider_id) == text::trimmed(input.provider_id),
        text::trimmed(identity.issuer) == text::trimmed(input.issuer),
        email::normalized(identity.email) == email::normalized(input.email),
        text::trimmed(input.binding_policy).len() == 0,
    ensures
        ({
            let search = search_for(identity, policy, key_of(identity)->Ok_0)->Ok_0;
            let row = row_of_invitation(invitation_of(input, user_id, id), now);
            &&& row.provider_id == search.provider_id
            &&& row.issuer == search.issuer
            &&& row.email_normalized == Some(search.email_normalized)
            &&& row.binding_policy == search.binding_policy
            &&& row.status == "pending"@
        }),
{
    let email = email::valid_email(input.email)->Ok_0;
    text::lemma_trimmed_twice(input.email);
    email::lemma_normalized_is_trimmed(input.email);
}

} // verus!
