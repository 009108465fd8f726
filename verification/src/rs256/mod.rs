//! Tokens signed with RS256, and the keys that sign them.

pub mod admin;
pub mod issue;
pub mod keys;
pub mod laws;
pub mod making;
pub mod signer;
pub mod wire;

pub use admin::SigningKeyAdmin;
pub use issue::{new_authn_claims, new_authz_claims};
pub use keys::{new_rsa_jwk, SigningKey};
pub use signer::Signer;
pub use wire::{decode_insecure, marshal_jwks};

use vstd::prelude::*;

use crate::error::{invalid, CoreError, CoreErrorView};
use crate::order;
use crate::text;
use crate::text::{cat2, cat3, copy_texts, debug_text};
use crate::time::{Moment, Span};

verus! {

/// The environment of a token that names none.
pub const DEFAULT_ENV: &'static str = "prod";

/// The algorithm that tokens are signed with.
pub const ALG_RS256: &'static str = "RS256";

/// The size of a key that is asked for without a size.
pub const DEFAULT_RSA_BITS: u32 = 2048;

/// What can go wrong with a token or a key.
#[derive(Debug, PartialEq, Eq)]
pub enum Error {
    MissingIssuer,
    MissingAudience,
    MissingSubject,
    MissingIdp,
    MissingAuthzResources,
    InvalidCompact,
    MissingExpiration,
    Expired,
    UnexpectedIssuer(String),
    AudienceNotPresent(String),
    UnexpectedAlgorithm(String),
    MissingKid,
    UnexpectedKid(String),
    UnsupportedPrivateKey,
    Crypto(String),
}

/// The view of [`Error`].
pub enum ErrorView {
    MissingIssuer,
    MissingAudience,
    MissingSubject,
    MissingIdp,
    MissingAuthzResources,
    InvalidCompact,
    MissingExpiration,
    Expired,
    UnexpectedIssuer(Seq<char>),
    AudienceNotPresent(Seq<char>),
    UnexpectedAlgorithm(Seq<char>),
    MissingKid,
    UnexpectedKid(Seq<char>),
    UnsupportedPrivateKey,
    Crypto(Seq<char>),
}

impl View for Error {
    type V = ErrorView;

    open spec fn view(&self) -> ErrorView {
        match self {
            Error::MissingIssuer => ErrorView::MissingIssuer,
            Error::MissingAudience => ErrorView::MissingAudience,
            Error::MissingSubject => ErrorView::MissingSubject,
            Error::MissingIdp => ErrorView::MissingIdp,
            Error::MissingAuthzResources => ErrorView::MissingAuthzResources,
            Error::InvalidCompact => ErrorView::InvalidCompact,
            Error::MissingExpiration => ErrorView::MissingExpiration,
            Error::Expired => ErrorView::Expired,
            Error::UnexpectedIssuer(s) => ErrorView::UnexpectedIssuer(s@),
            Error::AudienceNotPresent(s) => ErrorView::AudienceNotPresent(s@),
            Error::UnexpectedAlgorithm(s) => ErrorView::UnexpectedAlgorithm(s@),
            Error::MissingKid => ErrorView::MissingKid,
            Error::UnexpectedKid(s) => ErrorView::UnexpectedKid(s@),
            Error::UnsupportedPrivateKey => ErrorView::UnsupportedPrivateKey,
            Error::Crypto(s) => ErrorView::Crypto(s@),
        }
    }
}

/// What an error says.
pub open spec fn message_of(e: ErrorView) -> Seq<char> {
    match e {
        ErrorView::MissingIssuer => "token: issuer must not be empty"@,
        ErrorView::MissingAudience => "token: audience must not be empty"@,
        ErrorView::MissingSubject => "token: subject must not be empty"@,
        ErrorView::MissingIdp => "token: idp must not be empty"@,
        ErrorView::MissingAuthzResources => "token: authz token requires at least one resource"@,
        ErrorView::InvalidCompact => "token: compact JWT must have 3 parts"@,
        ErrorView::MissingExpiration => "token: missing exp"@,
        ErrorView::Expired => "token: expired"@,
        ErrorView::UnexpectedIssuer(s) => "token: unexpected issuer "@ + text::debug_quoted(s),
        ErrorView::AudienceNotPresent(s) => "token: audience "@ + text::debug_quoted(s) + " not present"@,
        ErrorView::UnexpectedAlgorithm(s) => "token: unexpected alg "@ + text::debug_quoted(s),
        ErrorView::MissingKid => "token: missing kid"@,
        ErrorView::UnexpectedKid(s) => "token: unexpected kid "@ + text::debug_quoted(s),
        ErrorView::UnsupportedPrivateKey => "token: unsupported private key format (want PKCS#8 or PKCS#1 RSA)"@,
        ErrorView::Crypto(s) => "token: "@ + s,
    }
}

impl Error {
    /// What the error says.
    pub fn message(&self) -> (r: String)
        ensures
            r@ == message_of(self@),
    {
        match self {
            Error::MissingIssuer => "token: issuer must not be empty".to_owned(),
            Error::MissingAudience => "token: audience must not be empty".to_owned(),
            Error::MissingSubject => "token: subject must not be empty".to_owned(),
            Error::MissingIdp => "token: idp must not be empty".to_owned(),
            Error::MissingAuthzResources => "token: authz token requires at least one resource".to_owned(),
            Error::InvalidCompact => "token: compact JWT must have 3 parts".to_owned(),
            Error::MissingExpiration => "token: missing exp".to_owned(),
            Error::Expired => "token: expired".to_owned(),
            Error::UnexpectedIssuer(s) => cat2("token: unexpected issuer ", debug_text(s.as_str()).as_str()),
            Error::AudienceNotPresent(s) => cat3("token: audience ", debug_text(s.as_str()).as_str(), " not present"),
            Error::UnexpectedAlgorithm(s) => cat2("token: unexpected alg ", debug_text(s.as_str()).as_str()),
            Error::MissingKid => "token: missing kid".to_owned(),
            Error::UnexpectedKid(s) => cat2("token: unexpected kid ", debug_text(s.as_str()).as_str()),
            Error::UnsupportedPrivateKey => "token: unsupported private key format (want PKCS#8 or PKCS#1 RSA)".to_owned(),
            Error::Crypto(s) => cat2("token: ", s.as_str()),
        }
    }
}

/// A result by the views of what it holds.
pub open spec fn outcome<T: View>(r: Result<T, Error>) -> Result<T::V, ErrorView> {
    match r {
        Ok(v) => Ok(v@),
        Err(e) => Err(e@),
    }
}

/// The error for something that went wrong outside, with its message.
pub fn crypto(what: &str, message: &str) -> (r: Error)
    ensures
        r@ == ErrorView::Crypto(what@ + message@),
{
    Error::Crypto(cat2(what, message))
}

/// The error as the fault of the request.
pub fn to_core_invalid(err: Error) -> (r: CoreError)
    ensures
        r@ == CoreErrorView::InvalidArgument(message_of(err@)),
{
    invalid(err.message().as_str())
}

/// The error as the fault of the key.
pub fn to_core_signing_key(_err: Error) -> (r: CoreError)
    ensures
        r@ == CoreErrorView::SigningKeyUnavailable,
{
    CoreError::SigningKeyUnavailable
}

/// The error as that of a token that is not accepted.
pub fn to_core_unauth(_err: Error) -> (r: CoreError)
    ensures
        r@ == CoreErrorView::Unauthenticated,
{
    CoreError::Unauthenticated
}

/// What a token permits on a resource.
#[derive(Debug, PartialEq, Eq)]
pub struct LoreResourcePermission {
    pub resource_id: String,
    pub permission: Vec<String>,
}

/// The view of [`LoreResourcePermission`].
#[verifier::ext_equal]
pub struct LoreResourcePermissionView {
    pub resource_id: Seq<char>,
    pub permission: Seq<Seq<char>>,
}

impl View for LoreResourcePermission {
    type V = LoreResourcePermissionView;

    open spec fn view(&self) -> LoreResourcePermissionView {
        LoreResourcePermissionView {
            resource_id: self.resource_id@,
            permission: text::texts(self.permission@),
        }
    }
}

impl Clone for LoreResourcePermission {
    fn clone(&self) -> (r: Self)
        ensures
            r@ == self@,
    {
        LoreResourcePermission {
            resource_id: self.resource_id.clone(),
            permission: copy_texts(&self.permission),
        }
    }
}

impl LoreResourcePermission {
    /// The view of the default value: every field empty.
    pub open spec fn blank() -> LoreResourcePermissionView {
        LoreResourcePermissionView {
            resource_id: Seq::empty(),
            permission: Seq::empty(),
        }
    }
}

impl Default for LoreResourcePermission {
    fn default() -> (r: Self)
        ensures
            r@ == Self::blank(),
    {
        LoreResourcePermission {
            resource_id: String::new(),
            permission: Vec::new(),
        }
    }
}

/// A copy of a list of permissions on resources.
pub fn copy_resources(v: &Vec<LoreResourcePermission>) -> (r: Vec<LoreResourcePermission>)
    ensures
        order::views(r@) == order::views(v@),
{
    let mut out: Vec<LoreResourcePermission> = Vec::new();
    let mut i: usize = 0;
    while i < v.len()
        invariant
            i <= v@.len(),
            out@.len() == i,
            forall|j: int| 0 <= j < i ==> (#[trigger] out@[j])@ == v@[j]@,
        decreases v@.len() - i,
    {
        out.push(v[i].clone());
        i += 1;
    }
    assert(order::views(out@) =~= order::views(v@));
    out
}

/// What a token says.
#[derive(Debug, PartialEq, Eq)]
pub struct LoreClaims {
    pub subject: String,
    pub issuer: String,
    pub issued_at: i64,
    pub expires_at: i64,
    pub audience: Vec<String>,
    pub env: String,
    pub name: String,
    pub preferred_username: String,
    pub resources: Vec<LoreResourcePermission>,
    pub groups: Vec<String>,
    pub is_service_account: Option<bool>,
    pub idp: String,
    pub jti: String,
}

/// The view of [`LoreClaims`].
#[verifier::ext_equal]
pub struct LoreClaimsView {
    pub subject: Seq<char>,
    pub issuer: Seq<char>,
    pub issued_at: i64,
    pub expires_at: i64,
    pub audience: Seq<Seq<char>>,
    pub env: Seq<char>,
    pub name: Seq<char>,
    pub preferred_username: Seq<char>,
    pub resources: Seq<LoreResourcePermissionView>,
    pub groups: Seq<Seq<char>>,
    pub is_service_account: Option<bool>,
    pub idp: Seq<char>,
    pub jti: Seq<char>,
}

impl View for LoreClaims {
    type V = LoreClaimsView;

    open spec fn view(&self) -> LoreClaimsView {
        LoreClaimsView {
            subject: self.subject@,
            issuer: self.issuer@,
            issued_at: self.issued_at,
            expires_at: self.expires_at,
            audience: text::texts(self.audience@),
            env: self.env@,
            name: self.name@,
            preferred_username: self.preferred_username@,
            resources: order::views(self.resources@),
            groups: text::texts(self.groups@),
            is_service_account: self.is_service_account,
            idp: self.idp@,
            jti: self.jti@,
        }
    }
}

impl Clone for LoreClaims {
    fn clone(&self) -> (r: Self)
        ensures
            r@ == self@,
    {
        LoreClaims {
            subject: self.subject.clone(),
            issuer: self.issuer.clone(),
            issued_at: self.issued_at,
            expires_at: self.expires_at,
            audience: copy_texts(&self.audience),
            env: self.env.clone(),
            name: self.name.clone(),
            preferred_username: self.preferred_username.clone(),
            resources: copy_resources(&self.resources),
            groups: copy_texts(&self.groups),
            is_service_account: self.is_service_account,
            idp: self.idp.clone(),
            jti: self.jti.clone(),
        }
    }
}

impl LoreClaims {
    /// The view of the default value: every field empty.
    pub open spec fn blank() -> LoreClaimsView {
        LoreClaimsView {
            subject: Seq::empty(),
            issuer: Seq::empty(),
            issued_at: 0,
            expires_at: 0,
            audience: Seq::empty(),
            env: Seq::empty(),
            name: Seq::empty(),
            preferred_username: Seq::empty(),
            resources: Seq::empty(),
            groups: Seq::empty(),
            is_service_account: None,
            idp: Seq::empty(),
            jti: Seq::empty(),
        }
    }
}

impl Default for LoreClaims {
    fn default() -> (r: Self)
        ensures
            r@ == Self::blank(),
    {
        LoreClaims {
            subject: String::new(),
            issuer: String::new(),
            issued_at: 0,
            expires_at: 0,
            audience: Vec::new(),
            env: String::new(),
            name: String::new(),
            preferred_username: String::new(),
            resources: Vec::new(),
            groups: Vec::new(),
            is_service_account: None,
            idp: String::new(),
            jti: String::new(),
        }
    }
}

/// What an authentication token is made of.
#[derive(Debug, PartialEq, Eq)]
pub struct AuthnOptions {
    pub issuer: String,
    pub audience: Vec<String>,
    pub subject: String,
    pub env: String,
    pub name: String,
    pub preferred_username: String,
    pub groups: Vec<String>,
    pub idp: String,
    pub is_service_account: bool,
    /// How long the token is good for; an hour where it has no length.
    pub ttl: Span,
    /// When the token is issued; now where there is none.
    pub now: Option<Moment>,
    pub jti: String,
}

/// The view of [`AuthnOptions`].
#[verifier::ext_equal]
pub struct AuthnOptionsView {
    pub issuer: Seq<char>,
    pub audience: Seq<Seq<char>>,
    pub subject: Seq<char>,
    pub env: Seq<char>,
    pub name: Seq<char>,
    pub preferred_username: Seq<char>,
    pub groups: Seq<Seq<char>>,
    pub idp: Seq<char>,
    pub is_service_account: bool,
    pub ttl: Span,
    pub now: Option<Moment>,
    pub jti: Seq<char>,
}

impl View for AuthnOptions {
    type V = AuthnOptionsView;

    open spec fn view(&self) -> AuthnOptionsView {
        AuthnOptionsView {
            issuer: self.issuer@,
            audience: text::texts(self.audience@),
            subject: self.subject@,
            env: self.env@,
            name: self.name@,
            preferred_username: self.preferred_username@,
            groups: text::texts(self.groups@),
            idp: self.idp@,
            is_service_account: self.is_service_account,
            ttl: self.ttl,
            now: self.now,
            jti: self.jti@,
        }
    }
}

/// What an authorization token is made of.
#[derive(Debug, PartialEq, Eq)]
pub struct AuthzOptions {
    pub issuer: String,
    pub audience: Vec<String>,
    pub subject: String,
    pub env: String,
    pub name: String,
    pub preferred_username: String,
    pub groups: Vec<String>,
    pub idp: String,
    pub is_service_account: bool,
    pub resources: Vec<LoreResourcePermission>,
    /// How long the token is good for; an hour where it has no length.
    pub ttl: Span,
    /// When the token is issued; now where there is none.
    pub now: Option<Moment>,
    pub jti: String,
}

/// The view of [`AuthzOptions`].
#[verifier::ext_equal]
pub struct AuthzOptionsView {
    pub issuer: Seq<char>,
    pub audience: Seq<Seq<char>>,
    pub subject: Seq<char>,
    pub env: Seq<char>,
    pub name: Seq<char>,
    pub preferred_username: Seq<char>,
    pub groups: Seq<Seq<char>>,
    pub idp: Seq<char>,
    pub is_service_account: bool,
    pub resources: Seq<LoreResourcePermissionView>,
    pub ttl: Span,
    pub now: Option<Moment>,
    pub jti: Seq<char>,
}

impl View for AuthzOptions {
    type V = AuthzOptionsView;

    open spec fn view(&self) -> AuthzOptionsView {
        AuthzOptionsView {
            issuer: self.issuer@,
            audience: text::texts(self.audience@),
            subject: self.subject@,
            env: self.env@,
            name: self.name@,
            preferred_username: self.preferred_username@,
            groups: text::texts(self.groups@),
            idp: self.idp@,
            is_service_account: self.is_service_account,
            resources: order::views(self.resources@),
            ttl: self.ttl,
            now: self.now,
            jti: self.jti@,
        }
    }
}

/// A public key as a JSON Web Key.
#[derive(Debug, PartialEq, Eq)]
pub struct RsaJwk {
    pub kty: String,
    pub use_: String,
    pub kid: String,
    pub alg: String,
    /// The modulus, in the URL-safe base64 alphabet.
    pub n: String,
    /// The exponent, in the URL-safe base64 alphabet.
    pub e: String,
}

/// The view of [`RsaJwk`].
#[verifier::ext_equal]
pub struct RsaJwkView {
    pub kty: Seq<char>,
    pub use_: Seq<char>,
    pub kid: Seq<char>,
    pub alg: Seq<char>,
    pub n: Seq<char>,
    pub e: Seq<char>,
}

impl View for RsaJwk {
    type V = RsaJwkView;

    open spec fn view(&self) -> RsaJwkView {
        RsaJwkView {
            kty: self.kty@,
            use_: self.use_@,
            kid: self.kid@,
            alg: self.alg@,
            n: self.n@,
            e: self.e@,
        }
    }
}

impl Clone for RsaJwk {
    fn clone(&self) -> (r: Self)
        ensures
            r@ == self@,
    {
        RsaJwk {
            kty: self.kty.clone(),
            use_: self.use_.clone(),
            kid: self.kid.clone(),
            alg: self.alg.clone(),
            n: self.n.clone(),
            e: self.e.clone(),
        }
    }
}

/// A set of public keys.
#[derive(Debug, PartialEq, Eq)]
pub struct JwkSet {
    pub keys: Vec<RsaJwk>,
}

/// The view of [`JwkSet`].
#[verifier::ext_equal]
pub struct JwkSetView {
    pub keys: Seq<RsaJwkView>,
}

impl View for JwkSet {
    type V = JwkSetView;

    open spec fn view(&self) -> JwkSetView {
        JwkSetView {
            keys: order::views(self.keys@),
        }
    }
}

/// What a token says, without any check of its signature: two JSON texts.
#[derive(Debug, PartialEq, Eq)]
pub struct DecodedInsecure {
    pub header: String,
    pub claims: String,
}

/// The view of [`DecodedInsecure`].
#[verifier::ext_equal]
pub struct DecodedInsecureView {
    pub header: Seq<char>,
    pub claims: Seq<char>,
}

impl View for DecodedInsecure {
    type V = DecodedInsecureView;

    open spec fn view(&self) -> DecodedInsecureView {
        DecodedInsecureView {
            header: self.header@,
            claims: self.claims@,
        }
    }
}

impl Clone for DecodedInsecure {
    fn clone(&self) -> (r: Self)
        ensures
            r@ == self@,
    {
        DecodedInsecure {
            header: self.header.clone(),
            claims: self.claims.clone(),
        }
    }
}

/// A default value says nothing: its texts and lists are empty, and nothing in it holds.
pub proof fn law_default_values_are_empty()
    ensures
        LoreResourcePermission::blank().resource_id.len() == 0,
        LoreResourcePermission::blank().permission.len() == 0,
        LoreClaims::blank().subject.len() == 0,
        LoreClaims::blank().issuer.len() == 0,
        LoreClaims::blank().issued_at == 0,
        LoreClaims::blank().expires_at == 0,
        LoreClaims::blank().audience.len() == 0,
        LoreClaims::blank().env.len() == 0,
        LoreClaims::blank().name.len() == 0,
        LoreClaims::blank().preferred_username.len() == 0,
        LoreClaims::blank().resources.len() == 0,
        LoreClaims::blank().groups.len() == 0,
        LoreClaims::blank().is_service_account is None,
        LoreClaims::blank().idp.len() == 0,
        LoreClaims::blank().jti.len() == 0,
{
}

} // verus!
