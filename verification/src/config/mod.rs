//! The configuration: its parts, its defaults and what is wrong with it.

pub mod defaults;
pub mod laws;
pub mod validate;

pub use validate::{public_host, ConfigError};

use vstd::prelude::*;

use crate::order;
use crate::text;

verus! {

/// Where the bridge listens and how it is reached.
#[derive(Debug, PartialEq, Eq)]
pub struct ServerConfig {
    pub listen: String,
    pub grpc_listen: String,
    pub grpc_tls_cert_file: String,
    pub grpc_tls_key_file: String,
    pub public_base_url: String,
}

/// The view of [`ServerConfig`].
#[verifier::ext_equal]
pub struct ServerConfigView {
    pub listen: Seq<char>,
    pub grpc_listen: Seq<char>,
    pub grpc_tls_cert_file: Seq<char>,
    pub grpc_tls_key_file: Seq<char>,
    pub public_base_url: Seq<char>,
}

impl View for ServerConfig {
    type V = ServerConfigView;

    open spec fn view(&self) -> ServerConfigView {
        ServerConfigView {
            listen: self.listen@,
            grpc_listen: self.grpc_listen@,
            grpc_tls_cert_file: self.grpc_tls_cert_file@,
            grpc_tls_key_file: self.grpc_tls_key_file@,
            public_base_url: self.public_base_url@,
        }
    }
}

impl ServerConfig {
    /// The view of the default value: every field empty.
    pub open spec fn blank() -> ServerConfigView {
        ServerConfigView {
            listen: Seq::empty(),
            grpc_listen: Seq::empty(),
            grpc_tls_cert_file: Seq::empty(),
            grpc_tls_key_file: Seq::empty(),
            public_base_url: Seq::empty(),
        }
    }
}

impl Default for ServerConfig {
    fn default() -> (r: Self)
        ensures
            r@ == Self::blank(),
    {
        ServerConfig {
            listen: String::new(),
            grpc_listen: String::new(),
            grpc_tls_cert_file: String::new(),
            grpc_tls_key_file: String::new(),
            public_base_url: String::new(),
        }
    }
}

/// What a user of an identity provider is recognised by.
#[derive(Debug, PartialEq, Eq)]
pub struct SubjectConfig {
    pub strategy: String,
    pub required_tid: String,
}

/// The view of [`SubjectConfig`].
#[verifier::ext_equal]
pub struct SubjectConfigView {
    pub strategy: Seq<char>,
    pub required_tid: Seq<char>,
}

impl View for SubjectConfig {
    type V = SubjectConfigView;

    open spec fn view(&self) -> SubjectConfigView {
        SubjectConfigView {
            strategy: self.strategy@,
            required_tid: self.required_tid@,
        }
    }
}

impl SubjectConfig {
    /// The view of the default value: every field empty.
    pub open spec fn blank() -> SubjectConfigView {
        SubjectConfigView {
            strategy: Seq::empty(),
            required_tid: Seq::empty(),
        }
    }
}

impl Default for SubjectConfig {
    fn default() -> (r: Self)
        ensures
            r@ == Self::blank(),
    {
        SubjectConfig {
            strategy: String::new(),
            required_tid: String::new(),
        }
    }
}

/// Which hosted domains are let in.
#[derive(Debug, PartialEq, Eq)]
pub struct HostedDomainTrust {
    pub allowed: Vec<String>,
}

/// The view of [`HostedDomainTrust`].
#[verifier::ext_equal]
pub struct HostedDomainTrustView {
    pub allowed: Seq<Seq<char>>,
}

impl View for HostedDomainTrust {
    type V = HostedDomainTrustView;

    open spec fn view(&self) -> HostedDomainTrustView {
        HostedDomainTrustView {
            allowed: text::texts(self.allowed@),
        }
    }
}

impl HostedDomainTrust {
    /// The view of the default value: every field empty.
    pub open spec fn blank() -> HostedDomainTrustView {
        HostedDomainTrustView {
            allowed: Seq::empty(),
        }
    }
}

impl Default for HostedDomainTrust {
    fn default() -> (r: Self)
        ensures
            r@ == Self::blank(),
    {
        HostedDomainTrust {
            allowed: Vec::new(),
        }
    }
}

/// What an identity provider is trusted with.
#[derive(Debug, PartialEq, Eq)]
pub struct TrustConfig {
    pub email_binding: String,
    pub allowed_email_domains: Vec<String>,
    pub hosted_domain: HostedDomainTrust,
    pub personal_accounts: String,
}

/// The view of [`TrustConfig`].
#[verifier::ext_equal]
pub struct TrustConfigView {
    pub email_binding: Seq<char>,
    pub allowed_email_domains: Seq<Seq<char>>,
    pub hosted_domain: HostedDomainTrustView,
    pub personal_accounts: Seq<char>,
}

impl View for TrustConfig {
    type V = TrustConfigView;

    open spec fn view(&self) -> TrustConfigView {
        TrustConfigView {
            email_binding: self.email_binding@,
            allowed_email_domains: text::texts(self.allowed_email_domains@),
            hosted_domain: self.hosted_domain@,
            personal_accounts: self.personal_accounts@,
        }
    }
}

impl TrustConfig {
    /// The view of the default value: every field empty.
    pub open spec fn blank() -> TrustConfigView {
        TrustConfigView {
            email_binding: Seq::empty(),
            allowed_email_domains: Seq::empty(),
            hosted_domain: HostedDomainTrust::blank(),
            personal_accounts: Seq::empty(),
        }
    }
}

impl Default for TrustConfig {
    fn default() -> (r: Self)
        ensures
            r@ == Self::blank(),
    {
        TrustConfig {
            email_binding: String::new(),
            allowed_email_domains: Vec::new(),
            hosted_domain: HostedDomainTrust::default(),
            personal_accounts: String::new(),
        }
    }
}

/// Which claim of a provider stands for one of ours.
#[derive(Debug, PartialEq, Eq)]
pub struct ClaimName {
    pub canonical: String,
    pub claim: String,
}

/// The view of [`ClaimName`].
#[verifier::ext_equal]
pub struct ClaimNameView {
    pub canonical: Seq<char>,
    pub claim: Seq<char>,
}

impl View for ClaimName {
    type V = ClaimNameView;

    open spec fn view(&self) -> ClaimNameView {
        ClaimNameView {
            canonical: self.canonical@,
            claim: self.claim@,
        }
    }
}

impl Clone for ClaimName {
    fn clone(&self) -> (r: Self)
        ensures
            r@ == self@,
    {
        ClaimName {
            canonical: self.canonical.clone(),
            claim: self.claim.clone(),
        }
    }
}

impl ClaimName {
    /// The view of the default value: every field empty.
    pub open spec fn blank() -> ClaimNameView {
        ClaimNameView {
            canonical: Seq::empty(),
            claim: Seq::empty(),
        }
    }
}

impl Default for ClaimName {
    fn default() -> (r: Self)
        ensures
            r@ == Self::blank(),
    {
        ClaimName {
            canonical: String::new(),
            claim: String::new(),
        }
    }
}

/// An identity provider.
#[derive(Debug, PartialEq, Eq)]
pub struct IdentityProviderConfig {
    pub provider_type: String,
    pub profile: String,
    pub display_name: String,
    pub issuer: String,
    pub client_id: String,
    pub client_secret_file: String,
    pub redirect_url: String,
    pub scopes: Vec<String>,
    pub pkce: String,
    pub subject: SubjectConfig,
    pub claims: Vec<ClaimName>,
    pub trust: TrustConfig,
}

/// The view of [`IdentityProviderConfig`].
#[verifier::ext_equal]
pub struct IdentityProviderConfigView {
    pub provider_type: Seq<char>,
    pub profile: Seq<char>,
    pub display_name: Seq<char>,
    pub issuer: Seq<char>,
    pub client_id: Seq<char>,
    pub client_secret_file: Seq<char>,
    pub redirect_url: Seq<char>,
    pub scopes: Seq<Seq<char>>,
    pub pkce: Seq<char>,
    pub subject: SubjectConfigView,
    pub claims: Seq<ClaimNameView>,
    pub trust: TrustConfigView,
}

impl View for IdentityProviderConfig {
    type V = IdentityProviderConfigView;

    open spec fn view(&self) -> IdentityProviderConfigView {
        IdentityProviderConfigView {
            provider_type: self.provider_type@,
            profile: self.profile@,
            display_name: self.display_name@,
            issuer: self.issuer@,
            client_id: self.client_id@,
            client_secret_file: self.client_secret_file@,
            redirect_url: self.redirect_url@,
            scopes: text::texts(self.scopes@),
            pkce: self.pkce@,
            subject: self.subject@,
            claims: order::views(self.claims@),
            trust: self.trust@,
        }
    }
}

impl IdentityProviderConfig {
    /// The view of the default value: every field empty.
    pub open spec fn blank() -> IdentityProviderConfigView {
        IdentityProviderConfigView {
            provider_type: Seq::empty(),
            profile: Seq::empty(),
            display_name: Seq::empty(),
            issuer: Seq::empty(),
            client_id: Seq::empty(),
            client_secret_file: Seq::empty(),
            redirect_url: Seq::empty(),
            scopes: Seq::empty(),
            pkce: Seq::empty(),
            subject: SubjectConfig::blank(),
            claims: Seq::empty(),
            trust: TrustConfig::blank(),
        }
    }
}

impl Default for IdentityProviderConfig {
    fn default() -> (r: Self)
        ensures
            r@ == Self::blank(),
    {
        IdentityProviderConfig {
            provider_type: String::new(),
            profile: String::new(),
            display_name: String::new(),
            issuer: String::new(),
            client_id: String::new(),
            client_secret_file: String::new(),
            redirect_url: String::new(),
            scopes: Vec::new(),
            pkce: String::new(),
            subject: SubjectConfig::default(),
            claims: Vec::new(),
            trust: TrustConfig::default(),
        }
    }
}

/// An identity provider and the name it is configured under.
#[derive(Debug, PartialEq, Eq)]
pub struct NamedProvider {
    pub id: String,
    pub provider: IdentityProviderConfig,
}

/// The view of [`NamedProvider`].
#[verifier::ext_equal]
pub struct NamedProviderView {
    pub id: Seq<char>,
    pub provider: IdentityProviderConfigView,
}

impl View for NamedProvider {
    type V = NamedProviderView;

    open spec fn view(&self) -> NamedProviderView {
        NamedProviderView {
            id: self.id@,
            provider: self.provider@,
        }
    }
}

impl NamedProvider {
    /// The view of the default value: every field empty.
    pub open spec fn blank() -> NamedProviderView {
        NamedProviderView {
            id: Seq::empty(),
            provider: IdentityProviderConfig::blank(),
        }
    }
}

impl Default for NamedProvider {
    fn default() -> (r: Self)
        ensures
            r@ == Self::blank(),
    {
        NamedProvider {
            id: String::new(),
            provider: IdentityProviderConfig::default(),
        }
    }
}

/// The identity providers, by name.
#[derive(Debug, PartialEq, Eq)]
pub struct IdentityProvidersConfig {
    pub default: Option<String>,
    pub providers: Vec<NamedProvider>,
}

/// The view of [`IdentityProvidersConfig`].
#[verifier::ext_equal]
pub struct IdentityProvidersConfigView {
    pub default: Option<Seq<char>>,
    pub providers: Seq<NamedProviderView>,
}

impl View for IdentityProvidersConfig {
    type V = IdentityProvidersConfigView;

    open spec fn view(&self) -> IdentityProvidersConfigView {
        IdentityProvidersConfigView {
            default: text::opt_text(self.default),
            providers: order::views(self.providers@),
        }
    }
}

impl IdentityProvidersConfig {
    /// The view of the default value: every field empty.
    pub open spec fn blank() -> IdentityProvidersConfigView {
        IdentityProvidersConfigView {
            default: None,
            providers: Seq::empty(),
        }
    }
}

impl Default for IdentityProvidersConfig {
    fn default() -> (r: Self)
        ensures
            r@ == Self::blank(),
    {
        IdentityProvidersConfig {
            default: None,
            providers: Vec::new(),
        }
    }
}

/// Where the database is.
#[derive(Debug, PartialEq, Eq)]
pub struct DatabaseConfig {
    pub path: String,
}

/// The view of [`DatabaseConfig`].
#[verifier::ext_equal]
pub struct DatabaseConfigView {
    pub path: Seq<char>,
}

impl View for DatabaseConfig {
    type V = DatabaseConfigView;

    open spec fn view(&self) -> DatabaseConfigView {
        DatabaseConfigView {
            path: self.path@,
        }
    }
}

impl DatabaseConfig {
    /// The view of the default value: every field empty.
    pub open spec fn blank() -> DatabaseConfigView {
        DatabaseConfigView {
            path: Seq::empty(),
        }
    }
}

impl Default for DatabaseConfig {
    fn default() -> (r: Self)
        ensures
            r@ == Self::blank(),
    {
        DatabaseConfig {
            path: String::new(),
        }
    }
}

/// What decides on access.
#[derive(Debug, PartialEq, Eq)]
pub struct AuthzConfig {
    pub backend: String,
}

/// The view of [`AuthzConfig`].
#[verifier::ext_equal]
pub struct AuthzConfigView {
    pub backend: Seq<char>,
}

impl View for AuthzConfig {
    type V = AuthzConfigView;

    open spec fn view(&self) -> AuthzConfigView {
        AuthzConfigView {
            backend: self.backend@,
        }
    }
}

impl AuthzConfig {
    /// The view of the default value: every field empty.
    pub open spec fn blank() -> AuthzConfigView {
        AuthzConfigView {
            backend: Seq::empty(),
        }
    }
}

impl Default for AuthzConfig {
    fn default() -> (r: Self)
        ensures
            r@ == Self::blank(),
    {
        AuthzConfig {
            backend: String::new(),
        }
    }
}

/// The tokens that are issued.
#[derive(Debug, PartialEq, Eq)]
pub struct JwtConfig {
    pub issuer: String,
    pub audience: Vec<String>,
    pub ttl_seconds: i64,
    pub signing_key_dir: String,
    pub active_kid: String,
}

/// The view of [`JwtConfig`].
#[verifier::ext_equal]
pub struct JwtConfigView {
    pub issuer: Seq<char>,
    pub audience: Seq<Seq<char>>,
    pub ttl_seconds: i64,
    pub signing_key_dir: Seq<char>,
    pub active_kid: Seq<char>,
}

impl View for JwtConfig {
    type V = JwtConfigView;

    open spec fn view(&self) -> JwtConfigView {
        JwtConfigView {
            issuer: self.issuer@,
            audience: text::texts(self.audience@),
            ttl_seconds: self.ttl_seconds,
            signing_key_dir: self.signing_key_dir@,
            active_kid: self.active_kid@,
        }
    }
}

impl JwtConfig {
    /// The view of the default value: every field empty.
    pub open spec fn blank() -> JwtConfigView {
        JwtConfigView {
            issuer: Seq::empty(),
            audience: Seq::empty(),
            ttl_seconds: 0,
            signing_key_dir: Seq::empty(),
            active_kid: Seq::empty(),
        }
    }
}

impl Default for JwtConfig {
    fn default() -> (r: Self)
        ensures
            r@ == Self::blank(),
    {
        JwtConfig {
            issuer: String::new(),
            audience: Vec::new(),
            ttl_seconds: 0,
            signing_key_dir: String::new(),
            active_kid: String::new(),
        }
    }
}

/// The server that tokens are issued for.
#[derive(Debug, PartialEq, Eq)]
pub struct LoreConfig {
    pub default_remote_url: String,
    pub auth_url: String,
}

/// The view of [`LoreConfig`].
#[verifier::ext_equal]
pub struct LoreConfigView {
    pub default_remote_url: Seq<char>,
    pub auth_url: Seq<char>,
}

impl View for LoreConfig {
    type V = LoreConfigView;

    open spec fn view(&self) -> LoreConfigView {
        LoreConfigView {
            default_remote_url: self.default_remote_url@,
            auth_url: self.auth_url@,
        }
    }
}

impl LoreConfig {
    /// The view of the default value: every field empty.
    pub open spec fn blank() -> LoreConfigView {
        LoreConfigView {
            default_remote_url: Seq::empty(),
            auth_url: Seq::empty(),
        }
    }
}

impl Default for LoreConfig {
    fn default() -> (r: Self)
        ensures
            r@ == Self::blank(),
    {
        LoreConfig {
            default_remote_url: String::new(),
            auth_url: String::new(),
        }
    }
}

/// Who administers the bridge.
#[derive(Debug, PartialEq, Eq)]
pub struct AdminConfig {
    pub admin_emails: Vec<String>,
}

/// The view of [`AdminConfig`].
#[verifier::ext_equal]
pub struct AdminConfigView {
    pub admin_emails: Seq<Seq<char>>,
}

impl View for AdminConfig {
    type V = AdminConfigView;

    open spec fn view(&self) -> AdminConfigView {
        AdminConfigView {
            admin_emails: text::texts(self.admin_emails@),
        }
    }
}

impl AdminConfig {
    /// The view of the default value: every field empty.
    pub open spec fn blank() -> AdminConfigView {
        AdminConfigView {
            admin_emails: Seq::empty(),
        }
    }
}

impl Default for AdminConfig {
    fn default() -> (r: Self)
        ensures
            r@ == Self::blank(),
    {
        AdminConfig {
            admin_emails: Vec::new(),
        }
    }
}

/// How long things last and who may connect.
#[derive(Debug, PartialEq, Eq)]
pub struct SecurityConfig {
    pub device_code_ttl_seconds: i64,
    pub device_poll_interval_seconds: i64,
    pub session_ttl_seconds: i64,
    pub auth_session_ttl_seconds: i64,
    pub rebac_allowed_peer_cidrs: Vec<String>,
    pub admin_allowed_peer_cidrs: Vec<String>,
}

/// The view of [`SecurityConfig`].
#[verifier::ext_equal]
pub struct SecurityConfigView {
    pub device_code_ttl_seconds: i64,
    pub device_poll_interval_seconds: i64,
    pub session_ttl_seconds: i64,
    pub auth_session_ttl_seconds: i64,
    pub rebac_allowed_peer_cidrs: Seq<Seq<char>>,
    pub admin_allowed_peer_cidrs: Seq<Seq<char>>,
}

impl View for SecurityConfig {
    type V = SecurityConfigView;

    open spec fn view(&self) -> SecurityConfigView {
        SecurityConfigView {
            device_code_ttl_seconds: self.device_code_ttl_seconds,
            device_poll_interval_seconds: self.device_poll_interval_seconds,
            session_ttl_seconds: self.session_ttl_seconds,
            auth_session_ttl_seconds: self.auth_session_ttl_seconds,
            rebac_allowed_peer_cidrs: text::texts(self.rebac_allowed_peer_cidrs@),
            admin_allowed_peer_cidrs: text::texts(self.admin_allowed_peer_cidrs@),
        }
    }
}

impl SecurityConfig {
    /// The view of the default value: every field empty.
    pub open spec fn blank() -> SecurityConfigView {
        SecurityConfigView {
            device_code_ttl_seconds: 0,
            device_poll_interval_seconds: 0,
            session_ttl_seconds: 0,
            auth_session_ttl_seconds: 0,
            rebac_allowed_peer_cidrs: Seq::empty(),
            admin_allowed_peer_cidrs: Seq::empty(),
        }
    }
}

impl Default for SecurityConfig {
    fn default() -> (r: Self)
        ensures
            r@ == Self::blank(),
    {
        SecurityConfig {
            device_code_ttl_seconds: 0,
            device_poll_interval_seconds: 0,
            session_ttl_seconds: 0,
            auth_session_ttl_seconds: 0,
            rebac_allowed_peer_cidrs: Vec::new(),
            admin_allowed_peer_cidrs: Vec::new(),
        }
    }
}

/// The configuration of the bridge.
#[derive(Debug, PartialEq, Eq)]
pub struct Config {
    pub server: ServerConfig,
    pub identity_providers: IdentityProvidersConfig,
    pub authz: AuthzConfig,
    pub database: DatabaseConfig,
    pub jwt: JwtConfig,
    pub lore: LoreConfig,
    pub security: SecurityConfig,
    pub admin: AdminConfig,
}

/// The view of [`Config`].
#[verifier::ext_equal]
pub struct ConfigView {
    pub server: ServerConfigView,
    pub identity_providers: IdentityProvidersConfigView,
    pub authz: AuthzConfigView,
    pub database: DatabaseConfigView,
    pub jwt: JwtConfigView,
    pub lore: LoreConfigView,
    pub security: SecurityConfigView,
    pub admin: AdminConfigView,
}

impl View for Config {
    type V = ConfigView;

    open spec fn view(&self) -> ConfigView {
        ConfigView {
            server: self.server@,
            identity_providers: self.identity_providers@,
            authz: self.authz@,
            database: self.database@,
            jwt: self.jwt@,
            lore: self.lore@,
            security: self.security@,
            admin: self.admin@,
        }
    }
}

impl Config {
    /// The view of the default value: every field empty.
    pub open spec fn blank() -> ConfigView {
        ConfigView {
            server: ServerConfig::blank(),
            identity_providers: IdentityProvidersConfig::blank(),
            authz: AuthzConfig::blank(),
            database: DatabaseConfig::blank(),
            jwt: JwtConfig::blank(),
            lore: LoreConfig::blank(),
            security: SecurityConfig::blank(),
            admin: AdminConfig::blank(),
        }
    }
}

impl Default for Config {
    fn default() -> (r: Self)
        ensures
            r@ == Self::blank(),
    {
        Config {
            server: ServerConfig::default(),
            identity_providers: IdentityProvidersConfig::default(),
            authz: AuthzConfig::default(),
            database: DatabaseConfig::default(),
            jwt: JwtConfig::default(),
            lore: LoreConfig::default(),
            security: SecurityConfig::default(),
            admin: AdminConfig::default(),
        }
    }
}

/// A default value says nothing: its texts and lists are empty, and its numbers are zero.
pub proof fn law_default_values_are_empty()
    ensures
        ServerConfig::blank().listen.len() == 0,
        ServerConfig::blank().grpc_listen.len() == 0,
        ServerConfig::blank().grpc_tls_cert_file.len() == 0,
        ServerConfig::blank().grpc_tls_key_file.len() == 0,
        ServerConfig::blank().public_base_url.len() == 0,
        SubjectConfig::blank().strategy.len() == 0,
        SubjectConfig::blank().required_tid.len() == 0,
        HostedDomainTrust::blank().allowed.len() == 0,
        TrustConfig::blank().email_binding.len() == 0,
        TrustConfig::blank().allowed_email_domains.len() == 0,
        TrustConfig::blank().hosted_domain == HostedDomainTrust::blank(),
        TrustConfig::blank().personal_accounts.len() == 0,
        ClaimName::blank().canonical.len() == 0,
        ClaimName::blank().claim.len() == 0,
        IdentityProviderConfig::blank().provider_type.len() == 0,
        IdentityProviderConfig::blank().profile.len() == 0,
        IdentityProviderConfig::blank().display_name.len() == 0,
        IdentityProviderConfig::blank().issuer.len() == 0,
        IdentityProviderConfig::blank().client_id.len() == 0,
        IdentityProviderConfig::blank().client_secret_file.len() == 0,
        IdentityProviderConfig::blank().redirect_url.len() == 0,
        IdentityProviderConfig::blank().scopes.len() == 0,
        IdentityProviderConfig::blank().pkce.len() == 0,
        IdentityProviderConfig::blank().subject == SubjectConfig::blank(),
        IdentityProviderConfig::blank().claims.len() == 0,
        IdentityProviderConfig::blank().trust == TrustConfig::blank(),
        NamedProvider::blank().id.len() == 0,
        NamedProvider::blank().provider == IdentityProviderConfig::blank(),
        IdentityProvidersConfig::blank().default is None,
        IdentityProvidersConfig::blank().providers.len() == 0,
        DatabaseConfig::blank().path.len() == 0,
        AuthzConfig::blank().backend.len() == 0,
        JwtConfig::blank().issuer.len() == 0,
        JwtConfig::blank().audience.len() == 0,
        JwtConfig::blank().ttl_seconds == 0,
        JwtConfig::blank().signing_key_dir.len() == 0,
        JwtConfig::blank().active_kid.len() == 0,
        LoreConfig::blank().default_remote_url.len() == 0,
        LoreConfig::blank().auth_url.len() == 0,
        AdminConfig::blank().admin_emails.len() == 0,
        SecurityConfig::blank().device_code_ttl_seconds == 0,
        SecurityConfig::blank().device_poll_interval_seconds == 0,
        SecurityConfig::blank().session_ttl_seconds == 0,
        SecurityConfig::blank().auth_session_ttl_seconds == 0,
        SecurityConfig::blank().rebac_allowed_peer_cidrs.len() == 0,
        SecurityConfig::blank().admin_allowed_peer_cidrs.len() == 0,
        Config::blank().server == ServerConfig::blank(),
        Config::blank().identity_providers == IdentityProvidersConfig::blank(),
        Config::blank().authz == AuthzConfig::blank(),
        Config::blank().database == DatabaseConfig::blank(),
        Config::blank().jwt == JwtConfig::blank(),
        Config::blank().lore == LoreConfig::blank(),
        Config::blank().security == SecurityConfig::blank(),
        Config::blank().admin == AdminConfig::blank(),
{
}

} // verus!
