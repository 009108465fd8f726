//! The values that the adapters exchange with their callers.

use vstd::prelude::*;

use crate::encoding::copy_bytes;
use crate::order;
use crate::roles::{copy_permissions, Permission};
use crate::table::Duplicate;
use crate::text;
use crate::text::copy_texts;
use crate::time::{Moment, Span};

verus! {

/// A person who can log in.
#[derive(Debug, PartialEq, Eq)]
pub struct User {
    pub id: String,
    pub email: String,
    pub display_name: String,
    pub status: String,
    pub last_login_at: i64,
}

/// The view of [`User`].
#[verifier::ext_equal]
pub struct UserView {
    pub id: Seq<char>,
    pub email: Seq<char>,
    pub display_name: Seq<char>,
    pub status: Seq<char>,
    pub last_login_at: i64,
}

impl View for User {
    type V = UserView;

    open spec fn view(&self) -> UserView {
        UserView {
            id: self.id@,
            email: self.email@,
            display_name: self.display_name@,
            status: self.status@,
            last_login_at: self.last_login_at,
        }
    }
}

impl Clone for User {
    fn clone(&self) -> (r: Self)
        ensures
            r@ == self@,
    {
        User {
            id: self.id.clone(),
            email: self.email.clone(),
            display_name: self.display_name.clone(),
            status: self.status.clone(),
            last_login_at: self.last_login_at,
        }
    }
}

impl User {
    /// The view of the default value: every field empty.
    pub open spec fn blank() -> UserView {
        UserView {
            id: Seq::empty(),
            email: Seq::empty(),
            display_name: Seq::empty(),
            status: Seq::empty(),
            last_login_at: 0,
        }
    }
}

impl Default for User {
    fn default() -> (r: Self)
        ensures
            r@ == Self::blank(),
    {
        User {
            id: String::new(),
            email: String::new(),
            display_name: String::new(),
            status: String::new(),
            last_login_at: 0,
        }
    }
}

/// Who somebody is to an identity provider, and the user that it is bound to.
#[derive(Debug, PartialEq, Eq)]
pub struct ExternalIdentity {
    pub id: String,
    pub user_id: String,
    pub provider_id: String,
    pub issuer: String,
    pub subject: String,
    pub subject_strategy: String,
    pub email: String,
    pub email_verified: bool,
    pub display_name: String,
    pub picture_url: String,
    pub hosted_domain: String,
    pub status: String,
}

/// The view of [`ExternalIdentity`].
#[verifier::ext_equal]
pub struct ExternalIdentityView {
    pub id: Seq<char>,
    pub user_id: Seq<char>,
    pub provider_id: Seq<char>,
    pub issuer: Seq<char>,
    pub subject: Seq<char>,
    pub subject_strategy: Seq<char>,
    pub email: Seq<char>,
    pub email_verified: bool,
    pub display_name: Seq<char>,
    pub picture_url: Seq<char>,
    pub hosted_domain: Seq<char>,
    pub status: Seq<char>,
}

impl View for ExternalIdentity {
    type V = ExternalIdentityView;

    open spec fn view(&self) -> ExternalIdentityView {
        ExternalIdentityView {
            id: self.id@,
            user_id: self.user_id@,
            provider_id: self.provider_id@,
            issuer: self.issuer@,
            subject: self.subject@,
            subject_strategy: self.subject_strategy@,
            email: self.email@,
            email_verified: self.email_verified,
            display_name: self.display_name@,
            picture_url: self.picture_url@,
            hosted_domain: self.hosted_domain@,
            status: self.status@,
        }
    }
}

impl Clone for ExternalIdentity {
    fn clone(&self) -> (r: Self)
        ensures
            r@ == self@,
    {
        ExternalIdentity {
            id: self.id.clone(),
            user_id: self.user_id.clone(),
            provider_id: self.provider_id.clone(),
            issuer: self.issuer.clone(),
            subject: self.subject.clone(),
            subject_strategy: self.subject_strategy.clone(),
            email: self.email.clone(),
            email_verified: self.email_verified,
            display_name: self.display_name.clone(),
            picture_url: self.picture_url.clone(),
            hosted_domain: self.hosted_domain.clone(),
            status: self.status.clone(),
        }
    }
}

impl ExternalIdentity {
    /// The view of the default value: every field empty.
    pub open spec fn blank() -> ExternalIdentityView {
        ExternalIdentityView {
            id: Seq::empty(),
            user_id: Seq::empty(),
            provider_id: Seq::empty(),
            issuer: Seq::empty(),
            subject: Seq::empty(),
            subject_strategy: Seq::empty(),
            email: Seq::empty(),
            email_verified: false,
            display_name: Seq::empty(),
            picture_url: Seq::empty(),
            hosted_domain: Seq::empty(),
            status: Seq::empty(),
        }
    }
}

impl Default for ExternalIdentity {
    fn default() -> (r: Self)
        ensures
            r@ == Self::blank(),
    {
        ExternalIdentity {
            id: String::new(),
            user_id: String::new(),
            provider_id: String::new(),
            issuer: String::new(),
            subject: String::new(),
            subject_strategy: String::new(),
            email: String::new(),
            email_verified: false,
            display_name: String::new(),
            picture_url: String::new(),
            hosted_domain: String::new(),
            status: String::new(),
        }
    }
}

/// A user who waits for a first login with a given e-mail address.
#[derive(Debug, PartialEq, Eq)]
pub struct IdentityInvitation {
    pub id: String,
    pub user_id: String,
    pub provider_id: String,
    pub issuer: String,
    pub email: String,
    pub binding_policy: String,
    pub status: String,
    pub accepted_identity_id: String,
    pub expires_at: i64,
    pub accepted_at: i64,
}

/// The view of [`IdentityInvitation`].
#[verifier::ext_equal]
pub struct IdentityInvitationView {
    pub id: Seq<char>,
    pub user_id: Seq<char>,
    pub provider_id: Seq<char>,
    pub issuer: Seq<char>,
    pub email: Seq<char>,
    pub binding_policy: Seq<char>,
    pub status: Seq<char>,
    pub accepted_identity_id: Seq<char>,
    pub expires_at: i64,
    pub accepted_at: i64,
}

impl View for IdentityInvitation {
    type V = IdentityInvitationView;

    open spec fn view(&self) -> IdentityInvitationView {
        IdentityInvitationView {
            id: self.id@,
            user_id: self.user_id@,
            provider_id: self.provider_id@,
            issuer: self.issuer@,
            email: self.email@,
            binding_policy: self.binding_policy@,
            status: self.status@,
            accepted_identity_id: self.accepted_identity_id@,
            expires_at: self.expires_at,
            accepted_at: self.accepted_at,
        }
    }
}

impl Clone for IdentityInvitation {
    fn clone(&self) -> (r: Self)
        ensures
            r@ == self@,
    {
        IdentityInvitation {
            id: self.id.clone(),
            user_id: self.user_id.clone(),
            provider_id: self.provider_id.clone(),
            issuer: self.issuer.clone(),
            email: self.email.clone(),
            binding_policy: self.binding_policy.clone(),
            status: self.status.clone(),
            accepted_identity_id: self.accepted_identity_id.clone(),
            expires_at: self.expires_at,
            accepted_at: self.accepted_at,
        }
    }
}

impl IdentityInvitation {
    /// The view of the default value: every field empty.
    pub open spec fn blank() -> IdentityInvitationView {
        IdentityInvitationView {
            id: Seq::empty(),
            user_id: Seq::empty(),
            provider_id: Seq::empty(),
            issuer: Seq::empty(),
            email: Seq::empty(),
            binding_policy: Seq::empty(),
            status: Seq::empty(),
            accepted_identity_id: Seq::empty(),
            expires_at: 0,
            accepted_at: 0,
        }
    }
}

impl Default for IdentityInvitation {
    fn default() -> (r: Self)
        ensures
            r@ == Self::blank(),
    {
        IdentityInvitation {
            id: String::new(),
            user_id: String::new(),
            provider_id: String::new(),
            issuer: String::new(),
            email: String::new(),
            binding_policy: String::new(),
            status: String::new(),
            accepted_identity_id: String::new(),
            expires_at: 0,
            accepted_at: 0,
        }
    }
}

/// A repository that access is granted on.
#[derive(Debug, PartialEq, Eq)]
pub struct Resource {
    pub id: String,
    pub name: String,
    pub remote_url: String,
    pub resource_id: String,
    pub lore_repository_id: String,
    pub status: String,
}

/// The view of [`Resource`].
#[verifier::ext_equal]
pub struct ResourceView {
    pub id: Seq<char>,
    pub name: Seq<char>,
    pub remote_url: Seq<char>,
    pub resource_id: Seq<char>,
    pub lore_repository_id: Seq<char>,
    pub status: Seq<char>,
}

impl View for Resource {
    type V = ResourceView;

    open spec fn view(&self) -> ResourceView {
        ResourceView {
            id: self.id@,
            name: self.name@,
            remote_url: self.remote_url@,
            resource_id: self.resource_id@,
            lore_repository_id: self.lore_repository_id@,
            status: self.status@,
        }
    }
}

impl Clone for Resource {
    fn clone(&self) -> (r: Self)
        ensures
            r@ == self@,
    {
        Resource {
            id: self.id.clone(),
            name: self.name.clone(),
            remote_url: self.remote_url.clone(),
            resource_id: self.resource_id.clone(),
            lore_repository_id: self.lore_repository_id.clone(),
            status: self.status.clone(),
        }
    }
}

impl Resource {
    /// The view of the default value: every field empty.
    pub open spec fn blank() -> ResourceView {
        ResourceView {
            id: Seq::empty(),
            name: Seq::empty(),
            remote_url: Seq::empty(),
            resource_id: Seq::empty(),
            lore_repository_id: Seq::empty(),
            status: Seq::empty(),
        }
    }
}

impl Default for Resource {
    fn default() -> (r: Self)
        ensures
            r@ == Self::blank(),
    {
        Resource {
            id: String::new(),
            name: String::new(),
            remote_url: String::new(),
            resource_id: String::new(),
            lore_repository_id: String::new(),
            status: String::new(),
        }
    }
}

/// A group of users and groups.
#[derive(Debug, PartialEq, Eq)]
pub struct Group {
    pub id: String,
    pub name: String,
    pub description: String,
}

/// The view of [`Group`].
#[verifier::ext_equal]
pub struct GroupView {
    pub id: Seq<char>,
    pub name: Seq<char>,
    pub description: Seq<char>,
}

impl View for Group {
    type V = GroupView;

    open spec fn view(&self) -> GroupView {
        GroupView {
            id: self.id@,
            name: self.name@,
            description: self.description@,
        }
    }
}

impl Clone for Group {
    fn clone(&self) -> (r: Self)
        ensures
            r@ == self@,
    {
        Group {
            id: self.id.clone(),
            name: self.name.clone(),
            description: self.description.clone(),
        }
    }
}

impl Group {
    /// The view of the default value: every field empty.
    pub open spec fn blank() -> GroupView {
        GroupView {
            id: Seq::empty(),
            name: Seq::empty(),
            description: Seq::empty(),
        }
    }
}

impl Default for Group {
    fn default() -> (r: Self)
        ensures
            r@ == Self::blank(),
    {
        Group {
            id: String::new(),
            name: String::new(),
            description: String::new(),
        }
    }
}

/// A role of a user or a group on a repository.
#[derive(Debug, PartialEq, Eq)]
pub struct Grant {
    pub id: String,
    pub subject_type: String,
    pub subject_id: String,
    pub repository_id: String,
    pub role: String,
}

/// The view of [`Grant`].
#[verifier::ext_equal]
pub struct GrantView {
    pub id: Seq<char>,
    pub subject_type: Seq<char>,
    pub subject_id: Seq<char>,
    pub repository_id: Seq<char>,
    pub role: Seq<char>,
}

impl View for Grant {
    type V = GrantView;

    open spec fn view(&self) -> GrantView {
        GrantView {
            id: self.id@,
            subject_type: self.subject_type@,
            subject_id: self.subject_id@,
            repository_id: self.repository_id@,
            role: self.role@,
        }
    }
}

impl Clone for Grant {
    fn clone(&self) -> (r: Self)
        ensures
            r@ == self@,
    {
        Grant {
            id: self.id.clone(),
            subject_type: self.subject_type.clone(),
            subject_id: self.subject_id.clone(),
            repository_id: self.repository_id.clone(),
            role: self.role.clone(),
        }
    }
}

impl Grant {
    /// The view of the default value: every field empty.
    pub open spec fn blank() -> GrantView {
        GrantView {
            id: Seq::empty(),
            subject_type: Seq::empty(),
            subject_id: Seq::empty(),
            repository_id: Seq::empty(),
            role: Seq::empty(),
        }
    }
}

impl Default for Grant {
    fn default() -> (r: Self)
        ensures
            r@ == Self::blank(),
    {
        Grant {
            id: String::new(),
            subject_type: String::new(),
            subject_id: String::new(),
            repository_id: String::new(),
            role: String::new(),
        }
    }
}

/// A grant that reaches a user, and by which way.
#[derive(Debug, PartialEq, Eq)]
pub struct GrantEvidence {
    pub subject_type: String,
    pub subject_id: String,
    pub subject_name: String,
    pub role: String,
    pub path: String,
}

/// The view of [`GrantEvidence`].
#[verifier::ext_equal]
pub struct GrantEvidenceView {
    pub subject_type: Seq<char>,
    pub subject_id: Seq<char>,
    pub subject_name: Seq<char>,
    pub role: Seq<char>,
    pub path: Seq<char>,
}

impl View for GrantEvidence {
    type V = GrantEvidenceView;

    open spec fn view(&self) -> GrantEvidenceView {
        GrantEvidenceView {
            subject_type: self.subject_type@,
            subject_id: self.subject_id@,
            subject_name: self.subject_name@,
            role: self.role@,
            path: self.path@,
        }
    }
}

impl Clone for GrantEvidence {
    fn clone(&self) -> (r: Self)
        ensures
            r@ == self@,
    {
        GrantEvidence {
            subject_type: self.subject_type.clone(),
            subject_id: self.subject_id.clone(),
            subject_name: self.subject_name.clone(),
            role: self.role.clone(),
            path: self.path.clone(),
        }
    }
}

impl GrantEvidence {
    /// The view of the default value: every field empty.
    pub open spec fn blank() -> GrantEvidenceView {
        GrantEvidenceView {
            subject_type: Seq::empty(),
            subject_id: Seq::empty(),
            subject_name: Seq::empty(),
            role: Seq::empty(),
            path: Seq::empty(),
        }
    }
}

impl Default for GrantEvidence {
    fn default() -> (r: Self)
        ensures
            r@ == Self::blank(),
    {
        GrantEvidence {
            subject_type: String::new(),
            subject_id: String::new(),
            subject_name: String::new(),
            role: String::new(),
            path: String::new(),
        }
    }
}

/// A login that a client waits for.
#[derive(Debug, PartialEq, Eq)]
pub struct AuthSession {
    pub id: String,
    pub client_state_hash: String,
    pub status: String,
    pub user_id: String,
    pub login_url_nonce: String,
    pub expires_at: i64,
}

/// The view of [`AuthSession`].
#[verifier::ext_equal]
pub struct AuthSessionView {
    pub id: Seq<char>,
    pub client_state_hash: Seq<char>,
    pub status: Seq<char>,
    pub user_id: Seq<char>,
    pub login_url_nonce: Seq<char>,
    pub expires_at: i64,
}

impl View for AuthSession {
    type V = AuthSessionView;

    open spec fn view(&self) -> AuthSessionView {
        AuthSessionView {
            id: self.id@,
            client_state_hash: self.client_state_hash@,
            status: self.status@,
            user_id: self.user_id@,
            login_url_nonce: self.login_url_nonce@,
            expires_at: self.expires_at,
        }
    }
}

impl Clone for AuthSession {
    fn clone(&self) -> (r: Self)
        ensures
            r@ == self@,
    {
        AuthSession {
            id: self.id.clone(),
            client_state_hash: self.client_state_hash.clone(),
            status: self.status.clone(),
            user_id: self.user_id.clone(),
            login_url_nonce: self.login_url_nonce.clone(),
            expires_at: self.expires_at,
        }
    }
}

impl AuthSession {
    /// The view of the default value: every field empty.
    pub open spec fn blank() -> AuthSessionView {
        AuthSessionView {
            id: Seq::empty(),
            client_state_hash: Seq::empty(),
            status: Seq::empty(),
            user_id: Seq::empty(),
            login_url_nonce: Seq::empty(),
            expires_at: 0,
        }
    }
}

impl Default for AuthSession {
    fn default() -> (r: Self)
        ensures
            r@ == Self::blank(),
    {
        AuthSession {
            id: String::new(),
            client_state_hash: String::new(),
            status: String::new(),
            user_id: String::new(),
            login_url_nonce: String::new(),
            expires_at: 0,
        }
    }
}

/// What is remembered while a user is at the identity provider.
#[derive(Debug, PartialEq, Eq)]
pub struct LoginState {
    pub id: String,
    pub provider_id: String,
    pub nonce: String,
    pub login_url_nonce: String,
    pub return_path: String,
    pub private_state: Vec<u8>,
    pub expires_at: i64,
}

/// The view of [`LoginState`].
#[verifier::ext_equal]
pub struct LoginStateView {
    pub id: Seq<char>,
    pub provider_id: Seq<char>,
    pub nonce: Seq<char>,
    pub login_url_nonce: Seq<char>,
    pub return_path: Seq<char>,
    pub private_state: Seq<u8>,
    pub expires_at: i64,
}

impl View for LoginState {
    type V = LoginStateView;

    open spec fn view(&self) -> LoginStateView {
        LoginStateView {
            id: self.id@,
            provider_id: self.provider_id@,
            nonce: self.nonce@,
            login_url_nonce: self.login_url_nonce@,
            return_path: self.return_path@,
            private_state: self.private_state@,
            expires_at: self.expires_at,
        }
    }
}

impl Clone for LoginState {
    fn clone(&self) -> (r: Self)
        ensures
            r@ == self@,
    {
        LoginState {
            id: self.id.clone(),
            provider_id: self.provider_id.clone(),
            nonce: self.nonce.clone(),
            login_url_nonce: self.login_url_nonce.clone(),
            return_path: self.return_path.clone(),
            private_state: copy_bytes(&self.private_state),
            expires_at: self.expires_at,
        }
    }
}

impl LoginState {
    /// The view of the default value: every field empty.
    pub open spec fn blank() -> LoginStateView {
        LoginStateView {
            id: Seq::empty(),
            provider_id: Seq::empty(),
            nonce: Seq::empty(),
            login_url_nonce: Seq::empty(),
            return_path: Seq::empty(),
            private_state: Seq::empty(),
            expires_at: 0,
        }
    }
}

impl Default for LoginState {
    fn default() -> (r: Self)
        ensures
            r@ == Self::blank(),
    {
        LoginState {
            id: String::new(),
            provider_id: String::new(),
            nonce: String::new(),
            login_url_nonce: String::new(),
            return_path: String::new(),
            private_state: Vec::new(),
            expires_at: 0,
        }
    }
}

/// What a login state is made of.
#[derive(Debug, PartialEq, Eq)]
pub struct LoginStateInput {
    pub provider_id: String,
    pub nonce: String,
    pub login_url_nonce: String,
    pub return_path: String,
    pub private_state: Vec<u8>,
}

/// The view of [`LoginStateInput`].
#[verifier::ext_equal]
pub struct LoginStateInputView {
    pub provider_id: Seq<char>,
    pub nonce: Seq<char>,
    pub login_url_nonce: Seq<char>,
    pub return_path: Seq<char>,
    pub private_state: Seq<u8>,
}

impl View for LoginStateInput {
    type V = LoginStateInputView;

    open spec fn view(&self) -> LoginStateInputView {
        LoginStateInputView {
            provider_id: self.provider_id@,
            nonce: self.nonce@,
            login_url_nonce: self.login_url_nonce@,
            return_path: self.return_path@,
            private_state: self.private_state@,
        }
    }
}

impl Clone for LoginStateInput {
    fn clone(&self) -> (r: Self)
        ensures
            r@ == self@,
    {
        LoginStateInput {
            provider_id: self.provider_id.clone(),
            nonce: self.nonce.clone(),
            login_url_nonce: self.login_url_nonce.clone(),
            return_path: self.return_path.clone(),
            private_state: copy_bytes(&self.private_state),
        }
    }
}

impl LoginStateInput {
    /// The view of the default value: every field empty.
    pub open spec fn blank() -> LoginStateInputView {
        LoginStateInputView {
            provider_id: Seq::empty(),
            nonce: Seq::empty(),
            login_url_nonce: Seq::empty(),
            return_path: Seq::empty(),
            private_state: Seq::empty(),
        }
    }
}

impl Default for LoginStateInput {
    fn default() -> (r: Self)
        ensures
            r@ == Self::blank(),
    {
        LoginStateInput {
            provider_id: String::new(),
            nonce: String::new(),
            login_url_nonce: String::new(),
            return_path: String::new(),
            private_state: Vec::new(),
        }
    }
}

/// A browser that a user is logged in with.
#[derive(Debug, PartialEq, Eq)]
pub struct BrowserSession {
    pub id: String,
    pub user_id: String,
    pub expires_at: i64,
}

/// The view of [`BrowserSession`].
#[verifier::ext_equal]
pub struct BrowserSessionView {
    pub id: Seq<char>,
    pub user_id: Seq<char>,
    pub expires_at: i64,
}

impl View for BrowserSession {
    type V = BrowserSessionView;

    open spec fn view(&self) -> BrowserSessionView {
        BrowserSessionView {
            id: self.id@,
            user_id: self.user_id@,
            expires_at: self.expires_at,
        }
    }
}

impl Clone for BrowserSession {
    fn clone(&self) -> (r: Self)
        ensures
            r@ == self@,
    {
        BrowserSession {
            id: self.id.clone(),
            user_id: self.user_id.clone(),
            expires_at: self.expires_at,
        }
    }
}

impl BrowserSession {
    /// The view of the default value: every field empty.
    pub open spec fn blank() -> BrowserSessionView {
        BrowserSessionView {
            id: Seq::empty(),
            user_id: Seq::empty(),
            expires_at: 0,
        }
    }
}

impl Default for BrowserSession {
    fn default() -> (r: Self)
        ensures
            r@ == Self::blank(),
    {
        BrowserSession {
            id: String::new(),
            user_id: String::new(),
            expires_at: 0,
        }
    }
}

/// A device that waits for a user to approve it.
#[derive(Debug, PartialEq, Eq)]
pub struct DeviceAuthorization {
    pub id: String,
    pub requested_remote_url: String,
    pub requested_repository_id: String,
    pub approved_user_id: String,
    pub status: String,
    pub created_at: i64,
    pub expires_at: i64,
    pub approved_at: i64,
    pub consumed_at: i64,
}

/// The view of [`DeviceAuthorization`].
#[verifier::ext_equal]
pub struct DeviceAuthorizationView {
    pub id: Seq<char>,
    pub requested_remote_url: Seq<char>,
    pub requested_repository_id: Seq<char>,
    pub approved_user_id: Seq<char>,
    pub status: Seq<char>,
    pub created_at: i64,
    pub expires_at: i64,
    pub approved_at: i64,
    pub consumed_at: i64,
}

impl View for DeviceAuthorization {
    type V = DeviceAuthorizationView;

    open spec fn view(&self) -> DeviceAuthorizationView {
        DeviceAuthorizationView {
            id: self.id@,
            requested_remote_url: self.requested_remote_url@,
            requested_repository_id: self.requested_repository_id@,
            approved_user_id: self.approved_user_id@,
            status: self.status@,
            created_at: self.created_at,
            expires_at: self.expires_at,
            approved_at: self.approved_at,
            consumed_at: self.consumed_at,
        }
    }
}

impl Clone for DeviceAuthorization {
    fn clone(&self) -> (r: Self)
        ensures
            r@ == self@,
    {
        DeviceAuthorization {
            id: self.id.clone(),
            requested_remote_url: self.requested_remote_url.clone(),
            requested_repository_id: self.requested_repository_id.clone(),
            approved_user_id: self.approved_user_id.clone(),
            status: self.status.clone(),
            created_at: self.created_at,
            expires_at: self.expires_at,
            approved_at: self.approved_at,
            consumed_at: self.consumed_at,
        }
    }
}

impl DeviceAuthorization {
    /// The view of the default value: every field empty.
    pub open spec fn blank() -> DeviceAuthorizationView {
        DeviceAuthorizationView {
            id: Seq::empty(),
            requested_remote_url: Seq::empty(),
            requested_repository_id: Seq::empty(),
            approved_user_id: Seq::empty(),
            status: Seq::empty(),
            created_at: 0,
            expires_at: 0,
            approved_at: 0,
            consumed_at: 0,
        }
    }
}

impl Default for DeviceAuthorization {
    fn default() -> (r: Self)
        ensures
            r@ == Self::blank(),
    {
        DeviceAuthorization {
            id: String::new(),
            requested_remote_url: String::new(),
            requested_repository_id: String::new(),
            approved_user_id: String::new(),
            status: String::new(),
            created_at: 0,
            expires_at: 0,
            approved_at: 0,
            consumed_at: 0,
        }
    }
}

/// What a device authorization is made of.
#[derive(Debug, PartialEq, Eq)]
pub struct CreateDeviceAuthorizationInput {
    pub device_code: String,
    pub user_code: String,
    pub requested_remote_url: String,
    pub requested_repository_id: String,
    pub ttl: Span,
}

/// The view of [`CreateDeviceAuthorizationInput`].
#[verifier::ext_equal]
pub struct CreateDeviceAuthorizationInputView {
    pub device_code: Seq<char>,
    pub user_code: Seq<char>,
    pub requested_remote_url: Seq<char>,
    pub requested_repository_id: Seq<char>,
    pub ttl: Span,
}

impl View for CreateDeviceAuthorizationInput {
    type V = CreateDeviceAuthorizationInputView;

    open spec fn view(&self) -> CreateDeviceAuthorizationInputView {
        CreateDeviceAuthorizationInputView {
            device_code: self.device_code@,
            user_code: self.user_code@,
            requested_remote_url: self.requested_remote_url@,
            requested_repository_id: self.requested_repository_id@,
            ttl: self.ttl,
        }
    }
}

/// The record of a token that was handed out.
#[derive(Debug, PartialEq, Eq)]
pub struct IssuedToken {
    pub jti: String,
    pub kind: String,
    pub user_id: String,
    pub repository_id: String,
    pub lore_resource_id: String,
    pub role: String,
    pub kid: String,
    pub audience: Vec<String>,
    pub issued_at: i64,
    pub expires_at: i64,
}

/// The view of [`IssuedToken`].
#[verifier::ext_equal]
pub struct IssuedTokenView {
    pub jti: Seq<char>,
    pub kind: Seq<char>,
    pub user_id: Seq<char>,
    pub repository_id: Seq<char>,
    pub lore_resource_id: Seq<char>,
    pub role: Seq<char>,
    pub kid: Seq<char>,
    pub audience: Seq<Seq<char>>,
    pub issued_at: i64,
    pub expires_at: i64,
}

impl View for IssuedToken {
    type V = IssuedTokenView;

    open spec fn view(&self) -> IssuedTokenView {
        IssuedTokenView {
            jti: self.jti@,
            kind: self.kind@,
            user_id: self.user_id@,
            repository_id: self.repository_id@,
            lore_resource_id: self.lore_resource_id@,
            role: self.role@,
            kid: self.kid@,
            audience: text::texts(self.audience@),
            issued_at: self.issued_at,
            expires_at: self.expires_at,
        }
    }
}

impl Clone for IssuedToken {
    fn clone(&self) -> (r: Self)
        ensures
            r@ == self@,
    {
        IssuedToken {
            jti: self.jti.clone(),
            kind: self.kind.clone(),
            user_id: self.user_id.clone(),
            repository_id: self.repository_id.clone(),
            lore_resource_id: self.lore_resource_id.clone(),
            role: self.role.clone(),
            kid: self.kid.clone(),
            audience: copy_texts(&self.audience),
            issued_at: self.issued_at,
            expires_at: self.expires_at,
        }
    }
}

impl IssuedToken {
    /// The view of the default value: every field empty.
    pub open spec fn blank() -> IssuedTokenView {
        IssuedTokenView {
            jti: Seq::empty(),
            kind: Seq::empty(),
            user_id: Seq::empty(),
            repository_id: Seq::empty(),
            lore_resource_id: Seq::empty(),
            role: Seq::empty(),
            kid: Seq::empty(),
            audience: Seq::empty(),
            issued_at: 0,
            expires_at: 0,
        }
    }
}

impl Default for IssuedToken {
    fn default() -> (r: Self)
        ensures
            r@ == Self::blank(),
    {
        IssuedToken {
            jti: String::new(),
            kind: String::new(),
            user_id: String::new(),
            repository_id: String::new(),
            lore_resource_id: String::new(),
            role: String::new(),
            kid: String::new(),
            audience: Vec::new(),
            issued_at: 0,
            expires_at: 0,
        }
    }
}

/// What is known of a token whose signature holds.
#[derive(Debug, PartialEq, Eq)]
pub struct VerifiedToken {
    pub subject: String,
    pub jti: String,
    pub idp: String,
    pub expires_at: i64,
    pub audience: Vec<String>,
    pub raw_claims: Vec<u8>,
}

/// The view of [`VerifiedToken`].
#[verifier::ext_equal]
pub struct VerifiedTokenView {
    pub subject: Seq<char>,
    pub jti: Seq<char>,
    pub idp: Seq<char>,
    pub expires_at: i64,
    pub audience: Seq<Seq<char>>,
    pub raw_claims: Seq<u8>,
}

impl View for VerifiedToken {
    type V = VerifiedTokenView;

    open spec fn view(&self) -> VerifiedTokenView {
        VerifiedTokenView {
            subject: self.subject@,
            jti: self.jti@,
            idp: self.idp@,
            expires_at: self.expires_at,
            audience: text::texts(self.audience@),
            raw_claims: self.raw_claims@,
        }
    }
}

impl Clone for VerifiedToken {
    fn clone(&self) -> (r: Self)
        ensures
            r@ == self@,
    {
        VerifiedToken {
            subject: self.subject.clone(),
            jti: self.jti.clone(),
            idp: self.idp.clone(),
            expires_at: self.expires_at,
            audience: copy_texts(&self.audience),
            raw_claims: copy_bytes(&self.raw_claims),
        }
    }
}

impl VerifiedToken {
    /// The view of the default value: every field empty.
    pub open spec fn blank() -> VerifiedTokenView {
        VerifiedTokenView {
            subject: Seq::empty(),
            jti: Seq::empty(),
            idp: Seq::empty(),
            expires_at: 0,
            audience: Seq::empty(),
            raw_claims: Seq::empty(),
        }
    }
}

impl Default for VerifiedToken {
    fn default() -> (r: Self)
        ensures
            r@ == Self::blank(),
    {
        VerifiedToken {
            subject: String::new(),
            jti: String::new(),
            idp: String::new(),
            expires_at: 0,
            audience: Vec::new(),
            raw_claims: Vec::new(),
        }
    }
}

/// A token and what it says.
#[derive(Debug, PartialEq, Eq)]
pub struct SignedToken {
    pub token: String,
    pub jti: String,
    pub kid: String,
    pub lore_resource_id: String,
    pub issued_at: i64,
    pub expires_at: i64,
    pub permissions: Vec<Permission>,
    pub audience: Vec<String>,
}

/// The view of [`SignedToken`].
#[verifier::ext_equal]
pub struct SignedTokenView {
    pub token: Seq<char>,
    pub jti: Seq<char>,
    pub kid: Seq<char>,
    pub lore_resource_id: Seq<char>,
    pub issued_at: i64,
    pub expires_at: i64,
    pub permissions: Seq<Permission>,
    pub audience: Seq<Seq<char>>,
}

impl View for SignedToken {
    type V = SignedTokenView;

    open spec fn view(&self) -> SignedTokenView {
        SignedTokenView {
            token: self.token@,
            jti: self.jti@,
            kid: self.kid@,
            lore_resource_id: self.lore_resource_id@,
            issued_at: self.issued_at,
            expires_at: self.expires_at,
            permissions: self.permissions@,
            audience: text::texts(self.audience@),
        }
    }
}

impl Clone for SignedToken {
    fn clone(&self) -> (r: Self)
        ensures
            r@ == self@,
    {
        SignedToken {
            token: self.token.clone(),
            jti: self.jti.clone(),
            kid: self.kid.clone(),
            lore_resource_id: self.lore_resource_id.clone(),
            issued_at: self.issued_at,
            expires_at: self.expires_at,
            permissions: copy_permissions(&self.permissions),
            audience: copy_texts(&self.audience),
        }
    }
}

impl SignedToken {
    /// The view of the default value: every field empty.
    pub open spec fn blank() -> SignedTokenView {
        SignedTokenView {
            token: Seq::empty(),
            jti: Seq::empty(),
            kid: Seq::empty(),
            lore_resource_id: Seq::empty(),
            issued_at: 0,
            expires_at: 0,
            permissions: Seq::empty(),
            audience: Seq::empty(),
        }
    }
}

impl Default for SignedToken {
    fn default() -> (r: Self)
        ensures
            r@ == Self::blank(),
    {
        SignedToken {
            token: String::new(),
            jti: String::new(),
            kid: String::new(),
            lore_resource_id: String::new(),
            issued_at: 0,
            expires_at: 0,
            permissions: Vec::new(),
            audience: Vec::new(),
        }
    }
}

/// What may be done with a resource.
#[derive(Debug, PartialEq, Eq)]
pub struct ResourcePermission {
    pub resource_id: String,
    pub permission: Vec<Permission>,
}

/// The view of [`ResourcePermission`].
#[verifier::ext_equal]
pub struct ResourcePermissionView {
    pub resource_id: Seq<char>,
    pub permission: Seq<Permission>,
}

impl View for ResourcePermission {
    type V = ResourcePermissionView;

    open spec fn view(&self) -> ResourcePermissionView {
        ResourcePermissionView {
            resource_id: self.resource_id@,
            permission: self.permission@,
        }
    }
}

impl Clone for ResourcePermission {
    fn clone(&self) -> (r: Self)
        ensures
            r@ == self@,
    {
        ResourcePermission {
            resource_id: self.resource_id.clone(),
            permission: copy_permissions(&self.permission),
        }
    }
}

impl ResourcePermission {
    /// The view of the default value: every field empty.
    pub open spec fn blank() -> ResourcePermissionView {
        ResourcePermissionView {
            resource_id: Seq::empty(),
            permission: Seq::empty(),
        }
    }
}

impl Default for ResourcePermission {
    fn default() -> (r: Self)
        ensures
            r@ == Self::blank(),
    {
        ResourcePermission {
            resource_id: String::new(),
            permission: Vec::new(),
        }
    }
}

/// What an authentication token is made of.
#[derive(Debug, PartialEq, Eq)]
pub struct AuthnTokenInput {
    pub issuer: String,
    pub audience: Vec<String>,
    pub subject: String,
    pub name: String,
    pub preferred_username: String,
    pub groups: Vec<String>,
    pub idp: String,
    pub ttl: Span,
    pub now: Option<Moment>,
    pub jti: String,
}

/// The view of [`AuthnTokenInput`].
#[verifier::ext_equal]
pub struct AuthnTokenInputView {
    pub issuer: Seq<char>,
    pub audience: Seq<Seq<char>>,
    pub subject: Seq<char>,
    pub name: Seq<char>,
    pub preferred_username: Seq<char>,
    pub groups: Seq<Seq<char>>,
    pub idp: Seq<char>,
    pub ttl: Span,
    pub now: Option<Moment>,
    pub jti: Seq<char>,
}

impl View for AuthnTokenInput {
    type V = AuthnTokenInputView;

    open spec fn view(&self) -> AuthnTokenInputView {
        AuthnTokenInputView {
            issuer: self.issuer@,
            audience: text::texts(self.audience@),
            subject: self.subject@,
            name: self.name@,
            preferred_username: self.preferred_username@,
            groups: text::texts(self.groups@),
            idp: self.idp@,
            ttl: self.ttl,
            now: self.now,
            jti: self.jti@,
        }
    }
}

/// What an authorization token is made of.
#[derive(Debug, PartialEq, Eq)]
pub struct AuthzTokenInput {
    pub issuer: String,
    pub audience: Vec<String>,
    pub subject: String,
    pub name: String,
    pub preferred_username: String,
    pub groups: Vec<String>,
    pub idp: String,
    pub resources: Vec<ResourcePermission>,
    pub ttl: Span,
    pub now: Option<Moment>,
    pub jti: String,
}

/// The view of [`AuthzTokenInput`].
#[verifier::ext_equal]
pub struct AuthzTokenInputView {
    pub issuer: Seq<char>,
    pub audience: Seq<Seq<char>>,
    pub subject: Seq<char>,
    pub name: Seq<char>,
    pub preferred_username: Seq<char>,
    pub groups: Seq<Seq<char>>,
    pub idp: Seq<char>,
    pub resources: Seq<ResourcePermissionView>,
    pub ttl: Span,
    pub now: Option<Moment>,
    pub jti: Seq<char>,
}

impl View for AuthzTokenInput {
    type V = AuthzTokenInputView;

    open spec fn view(&self) -> AuthzTokenInputView {
        AuthzTokenInputView {
            issuer: self.issuer@,
            audience: text::texts(self.audience@),
            subject: self.subject@,
            name: self.name@,
            preferred_username: self.preferred_username@,
            groups: text::texts(self.groups@),
            idp: self.idp@,
            resources: order::views(self.resources@),
            ttl: self.ttl,
            now: self.now,
            jti: self.jti@,
        }
    }
}

/// What a token is held against; an empty field is not checked.
#[derive(Debug, PartialEq, Eq)]
pub struct VerifyOptions {
    pub issuer: String,
    pub audience: String,
}

/// The view of [`VerifyOptions`].
#[verifier::ext_equal]
pub struct VerifyOptionsView {
    pub issuer: Seq<char>,
    pub audience: Seq<char>,
}

impl View for VerifyOptions {
    type V = VerifyOptionsView;

    open spec fn view(&self) -> VerifyOptionsView {
        VerifyOptionsView {
            issuer: self.issuer@,
            audience: self.audience@,
        }
    }
}

impl Clone for VerifyOptions {
    fn clone(&self) -> (r: Self)
        ensures
            r@ == self@,
    {
        VerifyOptions {
            issuer: self.issuer.clone(),
            audience: self.audience.clone(),
        }
    }
}

impl VerifyOptions {
    /// The view of the default value: every field empty.
    pub open spec fn blank() -> VerifyOptionsView {
        VerifyOptionsView {
            issuer: Seq::empty(),
            audience: Seq::empty(),
        }
    }
}

impl Default for VerifyOptions {
    fn default() -> (r: Self)
        ensures
            r@ == Self::blank(),
    {
        VerifyOptions {
            issuer: String::new(),
            audience: String::new(),
        }
    }
}

/// The record of an administrative change.
#[derive(Debug, PartialEq, Eq)]
pub struct AdminAuditEntry {
    pub id: String,
    pub actor: String,
    pub action: String,
    pub object_type: String,
    pub object_id: String,
    pub detail: String,
    pub created_at: i64,
}

/// The view of [`AdminAuditEntry`].
#[verifier::ext_equal]
pub struct AdminAuditEntryView {
    pub id: Seq<char>,
    pub actor: Seq<char>,
    pub action: Seq<char>,
    pub object_type: Seq<char>,
    pub object_id: Seq<char>,
    pub detail: Seq<char>,
    pub created_at: i64,
}

impl View for AdminAuditEntry {
    type V = AdminAuditEntryView;

    open spec fn view(&self) -> AdminAuditEntryView {
        AdminAuditEntryView {
            id: self.id@,
            actor: self.actor@,
            action: self.action@,
            object_type: self.object_type@,
            object_id: self.object_id@,
            detail: self.detail@,
            created_at: self.created_at,
        }
    }
}

impl Clone for AdminAuditEntry {
    fn clone(&self) -> (r: Self)
        ensures
            r@ == self@,
    {
        AdminAuditEntry {
            id: self.id.clone(),
            actor: self.actor.clone(),
            action: self.action.clone(),
            object_type: self.object_type.clone(),
            object_id: self.object_id.clone(),
            detail: self.detail.clone(),
            created_at: self.created_at,
        }
    }
}

impl AdminAuditEntry {
    /// The view of the default value: every field empty.
    pub open spec fn blank() -> AdminAuditEntryView {
        AdminAuditEntryView {
            id: Seq::empty(),
            actor: Seq::empty(),
            action: Seq::empty(),
            object_type: Seq::empty(),
            object_id: Seq::empty(),
            detail: Seq::empty(),
            created_at: 0,
        }
    }
}

impl Default for AdminAuditEntry {
    fn default() -> (r: Self)
        ensures
            r@ == Self::blank(),
    {
        AdminAuditEntry {
            id: String::new(),
            actor: String::new(),
            action: String::new(),
            object_type: String::new(),
            object_id: String::new(),
            detail: String::new(),
            created_at: 0,
        }
    }
}

/// What is public about a signing key, and where its private part is kept.
#[derive(Debug, PartialEq, Eq)]
pub struct SigningKeyMeta {
    pub kid: String,
    pub alg: String,
    pub public_jwk_json: String,
    pub private_key_path: String,
    pub status: String,
}

/// The view of [`SigningKeyMeta`].
#[verifier::ext_equal]
pub struct SigningKeyMetaView {
    pub kid: Seq<char>,
    pub alg: Seq<char>,
    pub public_jwk_json: Seq<char>,
    pub private_key_path: Seq<char>,
    pub status: Seq<char>,
}

impl View for SigningKeyMeta {
    type V = SigningKeyMetaView;

    open spec fn view(&self) -> SigningKeyMetaView {
        SigningKeyMetaView {
            kid: self.kid@,
            alg: self.alg@,
            public_jwk_json: self.public_jwk_json@,
            private_key_path: self.private_key_path@,
            status: self.status@,
        }
    }
}

impl Clone for SigningKeyMeta {
    fn clone(&self) -> (r: Self)
        ensures
            r@ == self@,
    {
        SigningKeyMeta {
            kid: self.kid.clone(),
            alg: self.alg.clone(),
            public_jwk_json: self.public_jwk_json.clone(),
            private_key_path: self.private_key_path.clone(),
            status: self.status.clone(),
        }
    }
}

impl SigningKeyMeta {
    /// The view of the default value: every field empty.
    pub open spec fn blank() -> SigningKeyMetaView {
        SigningKeyMetaView {
            kid: Seq::empty(),
            alg: Seq::empty(),
            public_jwk_json: Seq::empty(),
            private_key_path: Seq::empty(),
            status: Seq::empty(),
        }
    }
}

impl Default for SigningKeyMeta {
    fn default() -> (r: Self)
        ensures
            r@ == Self::blank(),
    {
        SigningKeyMeta {
            kid: String::new(),
            alg: String::new(),
            public_jwk_json: String::new(),
            private_key_path: String::new(),
            status: String::new(),
        }
    }
}

/// The user in the terms of the tokens that are issued for them.
#[derive(Debug, PartialEq, Eq)]
pub struct TokenPrincipal {
    pub user_id: String,
    pub token_subject: String,
    pub token_idp: String,
    pub display_name: String,
    pub preferred_username: String,
    pub groups: Vec<String>,
}

/// The view of [`TokenPrincipal`].
#[verifier::ext_equal]
pub struct TokenPrincipalView {
    pub user_id: Seq<char>,
    pub token_subject: Seq<char>,
    pub token_idp: Seq<char>,
    pub display_name: Seq<char>,
    pub preferred_username: Seq<char>,
    pub groups: Seq<Seq<char>>,
}

impl View for TokenPrincipal {
    type V = TokenPrincipalView;

    open spec fn view(&self) -> TokenPrincipalView {
        TokenPrincipalView {
            user_id: self.user_id@,
            token_subject: self.token_subject@,
            token_idp: self.token_idp@,
            display_name: self.display_name@,
            preferred_username: self.preferred_username@,
            groups: text::texts(self.groups@),
        }
    }
}

impl Clone for TokenPrincipal {
    fn clone(&self) -> (r: Self)
        ensures
            r@ == self@,
    {
        TokenPrincipal {
            user_id: self.user_id.clone(),
            token_subject: self.token_subject.clone(),
            token_idp: self.token_idp.clone(),
            display_name: self.display_name.clone(),
            preferred_username: self.preferred_username.clone(),
            groups: copy_texts(&self.groups),
        }
    }
}

impl TokenPrincipal {
    /// The view of the default value: every field empty.
    pub open spec fn blank() -> TokenPrincipalView {
        TokenPrincipalView {
            user_id: Seq::empty(),
            token_subject: Seq::empty(),
            token_idp: Seq::empty(),
            display_name: Seq::empty(),
            preferred_username: Seq::empty(),
            groups: Seq::empty(),
        }
    }
}

impl Default for TokenPrincipal {
    fn default() -> (r: Self)
        ensures
            r@ == Self::blank(),
    {
        TokenPrincipal {
            user_id: String::new(),
            token_subject: String::new(),
            token_idp: String::new(),
            display_name: String::new(),
            preferred_username: String::new(),
            groups: Vec::new(),
        }
    }
}

/// How a login found its user.
#[derive(Debug, PartialEq, Eq)]
pub struct LoginBindingResult {
    pub status: String,
    pub external_identity_id: String,
    pub invitation_id: String,
}

/// The view of [`LoginBindingResult`].
#[verifier::ext_equal]
pub struct LoginBindingResultView {
    pub status: Seq<char>,
    pub external_identity_id: Seq<char>,
    pub invitation_id: Seq<char>,
}

impl View for LoginBindingResult {
    type V = LoginBindingResultView;

    open spec fn view(&self) -> LoginBindingResultView {
        LoginBindingResultView {
            status: self.status@,
            external_identity_id: self.external_identity_id@,
            invitation_id: self.invitation_id@,
        }
    }
}

impl Clone for LoginBindingResult {
    fn clone(&self) -> (r: Self)
        ensures
            r@ == self@,
    {
        LoginBindingResult {
            status: self.status.clone(),
            external_identity_id: self.external_identity_id.clone(),
            invitation_id: self.invitation_id.clone(),
        }
    }
}

impl LoginBindingResult {
    /// The view of the default value: every field empty.
    pub open spec fn blank() -> LoginBindingResultView {
        LoginBindingResultView {
            status: Seq::empty(),
            external_identity_id: Seq::empty(),
            invitation_id: Seq::empty(),
        }
    }
}

impl Default for LoginBindingResult {
    fn default() -> (r: Self)
        ensures
            r@ == Self::blank(),
    {
        LoginBindingResult {
            status: String::new(),
            external_identity_id: String::new(),
            invitation_id: String::new(),
        }
    }
}

/// What a login may be bound to an account by.
#[derive(Debug, PartialEq, Eq)]
pub struct LoginTrustPolicy {
    pub email_binding: String,
    pub allowed_email_domains: Vec<String>,
}

/// The view of [`LoginTrustPolicy`].
#[verifier::ext_equal]
pub struct LoginTrustPolicyView {
    pub email_binding: Seq<char>,
    pub allowed_email_domains: Seq<Seq<char>>,
}

impl View for LoginTrustPolicy {
    type V = LoginTrustPolicyView;

    open spec fn view(&self) -> LoginTrustPolicyView {
        LoginTrustPolicyView {
            email_binding: self.email_binding@,
            allowed_email_domains: text::texts(self.allowed_email_domains@),
        }
    }
}

impl Clone for LoginTrustPolicy {
    fn clone(&self) -> (r: Self)
        ensures
            r@ == self@,
    {
        LoginTrustPolicy {
            email_binding: self.email_binding.clone(),
            allowed_email_domains: copy_texts(&self.allowed_email_domains),
        }
    }
}

impl LoginTrustPolicy {
    /// The view of the default value: every field empty.
    pub open spec fn blank() -> LoginTrustPolicyView {
        LoginTrustPolicyView {
            email_binding: Seq::empty(),
            allowed_email_domains: Seq::empty(),
        }
    }
}

impl Default for LoginTrustPolicy {
    fn default() -> (r: Self)
        ensures
            r@ == Self::blank(),
    {
        LoginTrustPolicy {
            email_binding: String::new(),
            allowed_email_domains: Vec::new(),
        }
    }
}

/// An identity that a provider vouches for, and the policy for it.
#[derive(Debug, PartialEq, Eq)]
pub struct LoginResolutionRequest {
    pub identity: ExternalIdentity,
    pub policy: LoginTrustPolicy,
}

/// The view of [`LoginResolutionRequest`].
#[verifier::ext_equal]
pub struct LoginResolutionRequestView {
    pub identity: ExternalIdentityView,
    pub policy: LoginTrustPolicyView,
}

impl View for LoginResolutionRequest {
    type V = LoginResolutionRequestView;

    open spec fn view(&self) -> LoginResolutionRequestView {
        LoginResolutionRequestView {
            identity: self.identity@,
            policy: self.policy@,
        }
    }
}

impl Clone for LoginResolutionRequest {
    fn clone(&self) -> (r: Self)
        ensures
            r@ == self@,
    {
        LoginResolutionRequest {
            identity: self.identity.clone(),
            policy: self.policy.clone(),
        }
    }
}

impl LoginResolutionRequest {
    /// The view of the default value: every field empty.
    pub open spec fn blank() -> LoginResolutionRequestView {
        LoginResolutionRequestView {
            identity: ExternalIdentity::blank(),
            policy: LoginTrustPolicy::blank(),
        }
    }
}

impl Default for LoginResolutionRequest {
    fn default() -> (r: Self)
        ensures
            r@ == Self::blank(),
    {
        LoginResolutionRequest {
            identity: ExternalIdentity::default(),
            policy: LoginTrustPolicy::default(),
        }
    }
}

/// What a user is made of.
#[derive(Debug, PartialEq, Eq)]
pub struct AddUserInput {
    pub email: String,
    pub display_name: String,
}

/// The view of [`AddUserInput`].
#[verifier::ext_equal]
pub struct AddUserInputView {
    pub email: Seq<char>,
    pub display_name: Seq<char>,
}

impl View for AddUserInput {
    type V = AddUserInputView;

    open spec fn view(&self) -> AddUserInputView {
        AddUserInputView {
            email: self.email@,
            display_name: self.display_name@,
        }
    }
}

impl Clone for AddUserInput {
    fn clone(&self) -> (r: Self)
        ensures
            r@ == self@,
    {
        AddUserInput {
            email: self.email.clone(),
            display_name: self.display_name.clone(),
        }
    }
}

impl AddUserInput {
    /// The view of the default value: every field empty.
    pub open spec fn blank() -> AddUserInputView {
        AddUserInputView {
            email: Seq::empty(),
            display_name: Seq::empty(),
        }
    }
}

impl Default for AddUserInput {
    fn default() -> (r: Self)
        ensures
            r@ == Self::blank(),
    {
        AddUserInput {
            email: String::new(),
            display_name: String::new(),
        }
    }
}

/// What an invitation is made of.
#[derive(Debug, PartialEq, Eq)]
pub struct AddInvitationInput {
    pub provider_id: String,
    pub issuer: String,
    pub email: String,
    pub display_name: String,
    pub binding_policy: String,
    pub expires_at: i64,
}

/// The view of [`AddInvitationInput`].
#[verifier::ext_equal]
pub struct AddInvitationInputView {
    pub provider_id: Seq<char>,
    pub issuer: Seq<char>,
    pub email: Seq<char>,
    pub display_name: Seq<char>,
    pub binding_policy: Seq<char>,
    pub expires_at: i64,
}

impl View for AddInvitationInput {
    type V = AddInvitationInputView;

    open spec fn view(&self) -> AddInvitationInputView {
        AddInvitationInputView {
            provider_id: self.provider_id@,
            issuer: self.issuer@,
            email: self.email@,
            display_name: self.display_name@,
            binding_policy: self.binding_policy@,
            expires_at: self.expires_at,
        }
    }
}

impl Clone for AddInvitationInput {
    fn clone(&self) -> (r: Self)
        ensures
            r@ == self@,
    {
        AddInvitationInput {
            provider_id: self.provider_id.clone(),
            issuer: self.issuer.clone(),
            email: self.email.clone(),
            display_name: self.display_name.clone(),
            binding_policy: self.binding_policy.clone(),
            expires_at: self.expires_at,
        }
    }
}

impl AddInvitationInput {
    /// The view of the default value: every field empty.
    pub open spec fn blank() -> AddInvitationInputView {
        AddInvitationInputView {
            provider_id: Seq::empty(),
            issuer: Seq::empty(),
            email: Seq::empty(),
            display_name: Seq::empty(),
            binding_policy: Seq::empty(),
            expires_at: 0,
        }
    }
}

impl Default for AddInvitationInput {
    fn default() -> (r: Self)
        ensures
            r@ == Self::blank(),
    {
        AddInvitationInput {
            provider_id: String::new(),
            issuer: String::new(),
            email: String::new(),
            display_name: String::new(),
            binding_policy: String::new(),
            expires_at: 0,
        }
    }
}

/// Which users to list, and how many at most.
#[derive(Debug, PartialEq, Eq)]
pub struct UserListFilter {
    pub query: String,
    pub limit: usize,
}

/// The view of [`UserListFilter`].
#[verifier::ext_equal]
pub struct UserListFilterView {
    pub query: Seq<char>,
    pub limit: usize,
}

impl View for UserListFilter {
    type V = UserListFilterView;

    open spec fn view(&self) -> UserListFilterView {
        UserListFilterView {
            query: self.query@,
            limit: self.limit,
        }
    }
}

impl Clone for UserListFilter {
    fn clone(&self) -> (r: Self)
        ensures
            r@ == self@,
    {
        UserListFilter {
            query: self.query.clone(),
            limit: self.limit,
        }
    }
}

impl UserListFilter {
    /// The view of the default value: every field empty.
    pub open spec fn blank() -> UserListFilterView {
        UserListFilterView {
            query: Seq::empty(),
            limit: 0,
        }
    }
}

impl Default for UserListFilter {
    fn default() -> (r: Self)
        ensures
            r@ == Self::blank(),
    {
        UserListFilter {
            query: String::new(),
            limit: 0,
        }
    }
}

/// Which resources to list.
#[derive(Debug, PartialEq, Eq)]
pub struct ResourceFilter {
    pub prefix: String,
}

/// The view of [`ResourceFilter`].
#[verifier::ext_equal]
pub struct ResourceFilterView {
    pub prefix: Seq<char>,
}

impl View for ResourceFilter {
    type V = ResourceFilterView;

    open spec fn view(&self) -> ResourceFilterView {
        ResourceFilterView {
            prefix: self.prefix@,
        }
    }
}

impl Clone for ResourceFilter {
    fn clone(&self) -> (r: Self)
        ensures
            r@ == self@,
    {
        ResourceFilter {
            prefix: self.prefix.clone(),
        }
    }
}

impl ResourceFilter {
    /// The view of the default value: every field empty.
    pub open spec fn blank() -> ResourceFilterView {
        ResourceFilterView {
            prefix: Seq::empty(),
        }
    }
}

impl Default for ResourceFilter {
    fn default() -> (r: Self)
        ensures
            r@ == Self::blank(),
    {
        ResourceFilter {
            prefix: String::new(),
        }
    }
}

/// What an identity provider says of itself.
#[derive(Debug, PartialEq, Eq)]
pub struct IdentityProviderDescriptor {
    pub id: String,
    pub provider_type: String,
    pub display_name: String,
    pub issuer: String,
    pub trust_policy: LoginTrustPolicy,
}

/// The view of [`IdentityProviderDescriptor`].
#[verifier::ext_equal]
pub struct IdentityProviderDescriptorView {
    pub id: Seq<char>,
    pub provider_type: Seq<char>,
    pub display_name: Seq<char>,
    pub issuer: Seq<char>,
    pub trust_policy: LoginTrustPolicyView,
}

impl View for IdentityProviderDescriptor {
    type V = IdentityProviderDescriptorView;

    open spec fn view(&self) -> IdentityProviderDescriptorView {
        IdentityProviderDescriptorView {
            id: self.id@,
            provider_type: self.provider_type@,
            display_name: self.display_name@,
            issuer: self.issuer@,
            trust_policy: self.trust_policy@,
        }
    }
}

impl Clone for IdentityProviderDescriptor {
    fn clone(&self) -> (r: Self)
        ensures
            r@ == self@,
    {
        IdentityProviderDescriptor {
            id: self.id.clone(),
            provider_type: self.provider_type.clone(),
            display_name: self.display_name.clone(),
            issuer: self.issuer.clone(),
            trust_policy: self.trust_policy.clone(),
        }
    }
}

impl IdentityProviderDescriptor {
    /// The view of the default value: every field empty.
    pub open spec fn blank() -> IdentityProviderDescriptorView {
        IdentityProviderDescriptorView {
            id: Seq::empty(),
            provider_type: Seq::empty(),
            display_name: Seq::empty(),
            issuer: Seq::empty(),
            trust_policy: LoginTrustPolicy::blank(),
        }
    }
}

impl Default for IdentityProviderDescriptor {
    fn default() -> (r: Self)
        ensures
            r@ == Self::blank(),
    {
        IdentityProviderDescriptor {
            id: String::new(),
            provider_type: String::new(),
            display_name: String::new(),
            issuer: String::new(),
            trust_policy: LoginTrustPolicy::default(),
        }
    }
}

/// What a login at an identity provider begins with.
#[derive(Debug, PartialEq, Eq)]
pub struct BeginAuthRequest {
    pub state: String,
    pub nonce: String,
    pub redirect_url: String,
    pub login_hint: String,
}

/// The view of [`BeginAuthRequest`].
#[verifier::ext_equal]
pub struct BeginAuthRequestView {
    pub state: Seq<char>,
    pub nonce: Seq<char>,
    pub redirect_url: Seq<char>,
    pub login_hint: Seq<char>,
}

impl View for BeginAuthRequest {
    type V = BeginAuthRequestView;

    open spec fn view(&self) -> BeginAuthRequestView {
        BeginAuthRequestView {
            state: self.state@,
            nonce: self.nonce@,
            redirect_url: self.redirect_url@,
            login_hint: self.login_hint@,
        }
    }
}

impl Clone for BeginAuthRequest {
    fn clone(&self) -> (r: Self)
        ensures
            r@ == self@,
    {
        BeginAuthRequest {
            state: self.state.clone(),
            nonce: self.nonce.clone(),
            redirect_url: self.redirect_url.clone(),
            login_hint: self.login_hint.clone(),
        }
    }
}

impl BeginAuthRequest {
    /// The view of the default value: every field empty.
    pub open spec fn blank() -> BeginAuthRequestView {
        BeginAuthRequestView {
            state: Seq::empty(),
            nonce: Seq::empty(),
            redirect_url: Seq::empty(),
            login_hint: Seq::empty(),
        }
    }
}

impl Default for BeginAuthRequest {
    fn default() -> (r: Self)
        ensures
            r@ == Self::blank(),
    {
        BeginAuthRequest {
            state: String::new(),
            nonce: String::new(),
            redirect_url: String::new(),
            login_hint: String::new(),
        }
    }
}

/// Where to send the user, and what to keep for later.
#[derive(Debug, PartialEq, Eq)]
pub struct BeginAuthResult {
    pub redirect_url: String,
    pub private_state: Vec<u8>,
}

/// The view of [`BeginAuthResult`].
#[verifier::ext_equal]
pub struct BeginAuthResultView {
    pub redirect_url: Seq<char>,
    pub private_state: Seq<u8>,
}

impl View for BeginAuthResult {
    type V = BeginAuthResultView;

    open spec fn view(&self) -> BeginAuthResultView {
        BeginAuthResultView {
            redirect_url: self.redirect_url@,
            private_state: self.private_state@,
        }
    }
}

impl Clone for BeginAuthResult {
    fn clone(&self) -> (r: Self)
        ensures
            r@ == self@,
    {
        BeginAuthResult {
            redirect_url: self.redirect_url.clone(),
            private_state: copy_bytes(&self.private_state),
        }
    }
}

impl BeginAuthResult {
    /// The view of the default value: every field empty.
    pub open spec fn blank() -> BeginAuthResultView {
        BeginAuthResultView {
            redirect_url: Seq::empty(),
            private_state: Seq::empty(),
        }
    }
}

impl Default for BeginAuthResult {
    fn default() -> (r: Self)
        ensures
            r@ == Self::blank(),
    {
        BeginAuthResult {
            redirect_url: String::new(),
            private_state: Vec::new(),
        }
    }
}

/// What comes back from an identity provider.
#[derive(Debug, PartialEq, Eq)]
pub struct CompleteAuthRequest {
    pub code: String,
    pub nonce: String,
    pub private_state: Vec<u8>,
}

/// The view of [`CompleteAuthRequest`].
#[verifier::ext_equal]
pub struct CompleteAuthRequestView {
    pub code: Seq<char>,
    pub nonce: Seq<char>,
    pub private_state: Seq<u8>,
}

impl View for CompleteAuthRequest {
    type V = CompleteAuthRequestView;

    open spec fn view(&self) -> CompleteAuthRequestView {
        CompleteAuthRequestView {
            code: self.code@,
            nonce: self.nonce@,
            private_state: self.private_state@,
        }
    }
}

impl Clone for CompleteAuthRequest {
    fn clone(&self) -> (r: Self)
        ensures
            r@ == self@,
    {
        CompleteAuthRequest {
            code: self.code.clone(),
            nonce: self.nonce.clone(),
            private_state: copy_bytes(&self.private_state),
        }
    }
}

impl CompleteAuthRequest {
    /// The view of the default value: every field empty.
    pub open spec fn blank() -> CompleteAuthRequestView {
        CompleteAuthRequestView {
            code: Seq::empty(),
            nonce: Seq::empty(),
            private_state: Seq::empty(),
        }
    }
}

impl Default for CompleteAuthRequest {
    fn default() -> (r: Self)
        ensures
            r@ == Self::blank(),
    {
        CompleteAuthRequest {
            code: String::new(),
            nonce: String::new(),
            private_state: Vec::new(),
        }
    }
}

impl Duplicate for User {
    fn duplicate(&self) -> (r: Self) {
        self.clone()
    }
}

impl Duplicate for Group {
    fn duplicate(&self) -> (r: Self) {
        self.clone()
    }
}

impl Duplicate for Resource {
    fn duplicate(&self) -> (r: Self) {
        self.clone()
    }
}

/// A default value says nothing: its texts and lists are empty, its numbers are zero, and
/// nothing in it holds.
pub proof fn law_default_values_are_empty()
    ensures
        User::blank().id.len() == 0,
        User::blank().email.len() == 0,
        User::blank().display_name.len() == 0,
        User::blank().status.len() == 0,
        User::blank().last_login_at == 0,
        ExternalIdentity::blank().id.len() == 0,
        ExternalIdentity::blank().user_id.len() == 0,
        ExternalIdentity::blank().provider_id.len() == 0,
        ExternalIdentity::blank().issuer.len() == 0,
        ExternalIdentity::blank().subject.len() == 0,
        ExternalIdentity::blank().subject_strategy.len() == 0,
        ExternalIdentity::blank().email.len() == 0,
        !ExternalIdentity::blank().email_verified,
        ExternalIdentity::blank().display_name.len() == 0,
        ExternalIdentity::blank().picture_url.len() == 0,
        ExternalIdentity::blank().hosted_domain.len() == 0,
        ExternalIdentity::blank().status.len() == 0,
        IdentityInvitation::blank().id.len() == 0,
        IdentityInvitation::blank().user_id.len() == 0,
        IdentityInvitation::blank().provider_id.len() == 0,
        IdentityInvitation::blank().issuer.len() == 0,
        IdentityInvitation::blank().email.len() == 0,
        IdentityInvitation::blank().binding_policy.len() == 0,
        IdentityInvitation::blank().status.len() == 0,
        IdentityInvitation::blank().accepted_identity_id.len() == 0,
        IdentityInvitation::blank().expires_at == 0,
        IdentityInvitation::blank().accepted_at == 0,
        Resource::blank().id.len() == 0,
        Resource::blank().name.len() == 0,
        Resource::blank().remote_url.len() == 0,
        Resource::blank().resource_id.len() == 0,
        Resource::blank().lore_repository_id.len() == 0,
        Resource::blank().status.len() == 0,
        Group::blank().id.len() == 0,
        Group::blank().name.len() == 0,
        Group::blank().description.len() == 0,
        Grant::blank().id.len() == 0,
        Grant::blank().subject_type.len() == 0,
        Grant::blank().subject_id.len() == 0,
        Grant::blank().repository_id.len() == 0,
        Grant::blank().role.len() == 0,
        GrantEvidence::blank().subject_type.len() == 0,
        GrantEvidence::blank().subject_id.len() == 0,
        GrantEvidence::blank().subject_name.len() == 0,
        GrantEvidence::blank().role.len() == 0,
        GrantEvidence::blank().path.len() == 0,
        AuthSession::blank().id.len() == 0,
        AuthSession::blank().client_state_hash.len() == 0,
        AuthSession::blank().status.len() == 0,
        AuthSession::blank().user_id.len() == 0,
        AuthSession::blank().login_url_nonce.len() == 0,
        AuthSession::blank().expires_at == 0,
        LoginState::blank().id.len() == 0,
        LoginState::blank().provider_id.len() == 0,
        LoginState::blank().nonce.len() == 0,
        LoginState::blank().login_url_nonce.len() == 0,
        LoginState::blank().return_path.len() == 0,
        LoginState::blank().private_state.len() == 0,
        LoginState::blank().expires_at == 0,
        LoginStateInput::blank().provider_id.len() == 0,
        LoginStateInput::blank().nonce.len() == 0,
        LoginStateInput::blank().login_url_nonce.len() == 0,
        LoginStateInput::blank().return_path.len() == 0,
        LoginStateInput::blank().private_state.len() == 0,
        BrowserSession::blank().id.len() == 0,
        BrowserSession::blank().user_id.len() == 0,
        BrowserSession::blank().expires_at == 0,
        DeviceAuthorization::blank().id.len() == 0,
        DeviceAuthorization::blank().requested_remote_url.len() == 0,
        DeviceAuthorization::blank().requested_repository_id.len() == 0,
        DeviceAuthorization::blank().approved_user_id.len() == 0,
        DeviceAuthorization::blank().status.len() == 0,
        DeviceAuthorization::blank().created_at == 0,
        DeviceAuthorization::blank().expires_at == 0,
        DeviceAuthorization::blank().approved_at == 0,
        DeviceAuthorization::blank().consumed_at == 0,
        IssuedToken::blank().jti.len() == 0,
        IssuedToken::blank().kind.len() == 0,
        IssuedToken::blank().user_id.len() == 0,
        IssuedToken::blank().repository_id.len() == 0,
        IssuedToken::blank().lore_resource_id.len() == 0,
        IssuedToken::blank().role.len() == 0,
        IssuedToken::blank().kid.len() == 0,
        IssuedToken::blank().audience.len() == 0,
        IssuedToken::blank().issued_at == 0,
        IssuedToken::blank().expires_at == 0,
        VerifiedToken::blank().subject.len() == 0,
        VerifiedToken::blank().jti.len() == 0,
        VerifiedToken::blank().idp.len() == 0,
        VerifiedToken::blank().expires_at == 0,
        VerifiedToken::blank().audience.len() == 0,
        VerifiedToken::blank().raw_claims.len() == 0,
        SignedToken::blank().token.len() == 0,
        SignedToken::blank().jti.len() == 0,
        SignedToken::blank().kid.len() == 0,
        SignedToken::blank().lore_resource_id.len() == 0,
        SignedToken::blank().issued_at == 0,
        SignedToken::blank().expires_at == 0,
        SignedToken::blank().permissions.len() == 0,
        SignedToken::blank().audience.len() == 0,
        ResourcePermission::blank().resource_id.len() == 0,
        ResourcePermission::blank().permission.len() == 0,
        VerifyOptions::blank().issuer.len() == 0,
        VerifyOptions::blank().audience.len() == 0,
        AdminAuditEntry::blank().id.len() == 0,
        AdminAuditEntry::blank().actor.len() == 0,
        AdminAuditEntry::blank().action.len() == 0,
        AdminAuditEntry::blank().object_type.len() == 0,
        AdminAuditEntry::blank().object_id.len() == 0,
        AdminAuditEntry::blank().detail.len() == 0,
        AdminAuditEntry::blank().created_at == 0,
        SigningKeyMeta::blank().kid.len() == 0,
        SigningKeyMeta::blank().alg.len() == 0,
        SigningKeyMeta::blank().public_jwk_json.len() == 0,
        SigningKeyMeta::blank().private_key_path.len() == 0,
        SigningKeyMeta::blank().status.len() == 0,
        TokenPrincipal::blank().user_id.len() == 0,
        TokenPrincipal::blank().token_subject.len() == 0,
        TokenPrincipal::blank().token_idp.len() == 0,
        TokenPrincipal::blank().display_name.len() == 0,
        TokenPrincipal::blank().preferred_username.len() == 0,
        TokenPrincipal::blank().groups.len() == 0,
        LoginBindingResult::blank().status.len() == 0,
        LoginBindingResult::blank().external_identity_id.len() == 0,
        LoginBindingResult::blank().invitation_id.len() == 0,
        LoginTrustPolicy::blank().email_binding.len() == 0,
        LoginTrustPolicy::blank().allowed_email_domains.len() == 0,
        LoginResolutionRequest::blank().identity == ExternalIdentity::blank(),
        LoginResolutionRequest::blank().policy == LoginTrustPolicy::blank(),
        AddUserInput::blank().email.len() == 0,
        AddUserInput::blank().display_name.len() == 0,
        AddInvitationInput::blank().provider_id.len() == 0,
        AddInvitationInput::blank().issuer.len() == 0,
        AddInvitationInput::blank().email.len() == 0,
        AddInvitationInput::blank().display_name.len() == 0,
        AddInvitationInput::blank().binding_policy.len() == 0,
        AddInvitationInput::blank().expires_at == 0,
        UserListFilter::blank().query.len() == 0,
        UserListFilter::blank().limit == 0,
        ResourceFilter::blank().prefix.len() == 0,
        IdentityProviderDescriptor::blank().id.len() == 0,
        IdentityProviderDescriptor::blank().provider_type.len() == 0,
        IdentityProviderDescriptor::blank().display_name.len() == 0,
        IdentityProviderDescriptor::blank().issuer.len() == 0,
        IdentityProviderDescriptor::blank().trust_policy == LoginTrustPolicy::blank(),
        BeginAuthRequest::blank().state.len() == 0,
        BeginAuthRequest::blank().nonce.len() == 0,
        BeginAuthRequest::blank().redirect_url.len() == 0,
        BeginAuthRequest::blank().login_hint.len() == 0,
        BeginAuthResult::blank().redirect_url.len() == 0,
        BeginAuthResult::blank().private_state.len() == 0,
        CompleteAuthRequest::blank().code.len() == 0,
        CompleteAuthRequest::blank().nonce.len() == 0,
        CompleteAuthRequest::blank().private_state.len() == 0,
{
}

} // verus!
