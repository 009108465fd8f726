use lore_auth_adapters::config::{
    public_host, AuthzConfig, ClaimName, Config, ConfigError, DatabaseConfig,
    IdentityProviderConfig, IdentityProvidersConfig, JwtConfig, NamedProvider, ServerConfig,
    SubjectConfig, TrustConfig,
};

fn provider(id: &str) -> IdentityProviderConfig {
    IdentityProviderConfig {
        provider_type: "oidc".to_owned(),
        profile: "google".to_owned(),
        issuer: "https://accounts.example.com".to_owned(),
        client_id: "client".to_owned(),
        client_secret_file: "/run/secret".to_owned(),
        redirect_url: format!("https://bridge.example.com/auth/{id}/callback"),
        claims: vec![ClaimName {
            canonical: "email".to_owned(),
            claim: "mail".to_owned(),
        }],
        ..Default::default()
    }
}

fn named(id: &str, provider: IdentityProviderConfig) -> IdentityProvidersConfig {
    IdentityProvidersConfig {
        default: Some(id.to_owned()),
        providers: vec![NamedProvider {
            id: id.to_owned(),
            provider,
        }],
    }
}

fn good() -> Config {
    let mut config = Config {
        server: ServerConfig {
            public_base_url: "https://bridge.example.com".to_owned(),
            ..Default::default()
        },
        identity_providers: named("google", provider("google")),
        database: DatabaseConfig {
            path: "/var/lib/bridge.db".to_owned(),
        },
        jwt: JwtConfig {
            issuer: "https://bridge.example.com".to_owned(),
            audience: vec!["lore.example.com".to_owned()],
            signing_key_dir: "/var/lib/keys".to_owned(),
            ..Default::default()
        },
        ..Default::default()
    };
    config.admin.admin_emails = vec![" Ada@Example.com".to_owned()];
    config.apply_defaults();
    config
}

fn complaint(change: fn(&mut Config)) -> String {
    let mut config = good();
    change(&mut config);
    match config.validate(&vec!["10.0.0.1".to_owned()]) {
        Ok(()) => "fine".to_owned(),
        Err(ConfigError::Validate(message)) => message,
    }
}

fn provider_complaint(change: fn(&mut IdentityProviderConfig)) -> String {
    let mut config = good();
    change(&mut config.identity_providers.providers[0].provider);
    match config.validate(&vec![]) {
        Ok(()) => "fine".to_owned(),
        Err(ConfigError::Validate(message)) => message,
    }
}

#[test]
fn defaults_fill_what_is_left_out() {
    let config = good();
    assert_eq!(config.server.listen, "127.0.0.1:8080");
    assert_eq!(config.server.grpc_listen, "127.0.0.1:8081");
    assert_eq!(config.jwt.ttl_seconds, 3600);
    assert_eq!(config.authz.backend, "rebac");
    assert_eq!(config.security.device_code_ttl_seconds, 600);
    assert_eq!(config.security.device_poll_interval_seconds, 3);
    assert_eq!(config.security.session_ttl_seconds, 3600);
    assert_eq!(config.security.auth_session_ttl_seconds, 3600);
    assert_eq!(config.lore.auth_url, "ucs-auth://bridge.example.com");
    assert_eq!(config.admin.admin_emails, vec!["ada@example.com".to_owned()]);
    let provider = &config.identity_providers.providers[0].provider;
    assert_eq!(provider.scopes, vec!["openid", "email", "profile"]);
    assert_eq!(provider.subject.strategy, "oidc_sub");
    assert_eq!(provider.trust.email_binding, "disabled");
}

#[test]
fn defaults_leave_what_is_given_and_hold_still() {
    let mut config = Config::default();
    config.server.listen = "0.0.0.0:1".to_owned();
    config.security.session_ttl_seconds = 7;
    config.apply_defaults();
    assert_eq!(config.server.listen, "0.0.0.0:1");
    assert_eq!(config.security.session_ttl_seconds, 7);
    assert_eq!(config.security.auth_session_ttl_seconds, 7);
    assert_eq!(config.lore.auth_url, "");
    let mut once = good();
    once.apply_defaults();
    assert_eq!(once, good());
}

#[test]
fn a_complete_configuration_is_fine() {
    assert_eq!(complaint(|_| {}), "fine");
    assert_eq!(
        complaint(|c| {
            c.security.rebac_allowed_peer_cidrs = vec!["10.0.0.0/8".to_owned(), " 10.0.0.1 ".to_owned()];
            c.lore.default_remote_url = "lore://LORE.example.com:41337/x".to_owned();
        }),
        "fine"
    );
}

#[test]
fn what_is_missing_is_named() {
    assert_eq!(complaint(|c| c.database.path.clear()), "database.path is required");
    assert_eq!(
        complaint(|c| c.server.public_base_url.clear()),
        "server.public_base_url is required"
    );
    assert_eq!(complaint(|c| c.jwt.issuer.clear()), "jwt.issuer is required");
    assert_eq!(complaint(|c| c.jwt.audience.clear()), "jwt.audience must not be empty");
    assert_eq!(
        complaint(|c| c.jwt.audience.push(" ".to_owned())),
        "jwt.audience[1] must not be empty"
    );
    assert_eq!(
        complaint(|c| c.jwt.signing_key_dir.clear()),
        "jwt.signing_key_dir is required"
    );
}

#[test]
fn the_backend_must_be_known() {
    let with = |backend: &str| {
        let mut config = good();
        config.authz = AuthzConfig {
            backend: backend.to_owned(),
        };
        config.validate(&vec![]).unwrap_err().message()
    };
    assert_eq!(
        with("sql"),
        "config: authz.backend sql backend has been removed; remove authz.backend or set it to rebac"
    );
    assert_eq!(with("x\"y"), "config: authz.backend \"x\\\"y\" must be rebac");
}

#[test]
fn addresses_must_be_absolute_and_of_a_known_scheme() {
    assert_eq!(
        complaint(|c| c.server.public_base_url = "bridge".to_owned()),
        "server.public_base_url must be an absolute URL"
    );
    assert_eq!(
        complaint(|c| c.server.public_base_url = "ftp://bridge".to_owned()),
        "server.public_base_url scheme must be one of http, https"
    );
    assert_eq!(
        complaint(|c| c.jwt.issuer = "mailto:a@b".to_owned()),
        "jwt.issuer must be an absolute URL"
    );
    assert_eq!(
        complaint(|c| c.lore.auth_url = "http://x".to_owned()),
        "lore.auth_url scheme must be one of https, ucs-auth"
    );
    assert_eq!(
        complaint(|c| c.lore.default_remote_url = "lore://other.example.com".to_owned()),
        "jwt.audience must include lore.default_remote_url host \"other.example.com\""
    );
}

#[test]
fn keys_and_certificates_come_together() {
    assert_eq!(
        complaint(|c| c.server.grpc_tls_key_file = "k".to_owned()),
        "server.grpc_tls_cert_file is required when server.grpc_tls_key_file is set"
    );
    assert_eq!(
        complaint(|c| c.server.grpc_tls_cert_file = "c".to_owned()),
        "server.grpc_tls_key_file is required when server.grpc_tls_cert_file is set"
    );
}

#[test]
fn lengths_of_time_are_positive() {
    assert_eq!(complaint(|c| c.jwt.ttl_seconds = -1), "jwt.ttl_seconds must be positive");
    assert_eq!(
        complaint(|c| c.security.device_code_ttl_seconds = 0),
        "security.device_code_ttl_seconds must be positive"
    );
    assert_eq!(
        complaint(|c| c.security.device_poll_interval_seconds = 0),
        "security.device_poll_interval_seconds must be positive"
    );
    assert_eq!(
        complaint(|c| c.security.session_ttl_seconds = 0),
        "security.session_ttl_seconds must be positive"
    );
    assert_eq!(
        complaint(|c| c.security.auth_session_ttl_seconds = 0),
        "security.auth_session_ttl_seconds must be positive"
    );
}

#[test]
fn peers_are_networks_or_addresses() {
    assert_eq!(
        complaint(|c| c.security.rebac_allowed_peer_cidrs = vec!["10.0.0.0/33".to_owned()]),
        "security.rebac_allowed_peer_cidrs[0]: security.rebac_allowed_peer_cidrs must be a valid CIDR or IP address"
    );
    assert_eq!(
        complaint(|c| c.security.admin_allowed_peer_cidrs = vec!["10.0.0.1".to_owned(), " ".to_owned()]),
        "security.admin_allowed_peer_cidrs[1]: security.admin_allowed_peer_cidrs must not be empty"
    );
    assert_eq!(
        complaint(|c| c.security.admin_allowed_peer_cidrs = vec!["nonsense".to_owned()]),
        "security.admin_allowed_peer_cidrs[0]: security.admin_allowed_peer_cidrs must be a valid CIDR or IP address"
    );
    let mut config = good();
    config.security.rebac_allowed_peer_cidrs = vec![" ::1 ".to_owned(), "::/0".to_owned()];
    config.security.admin_allowed_peer_cidrs = vec!["10.0.0.1".to_owned()];
    assert_eq!(config.peers_without_prefix(), vec!["::1", "10.0.0.1"]);
}

#[test]
fn administrators_are_named_once() {
    assert_eq!(
        complaint(|c| c.admin.admin_emails.push("ada@example.com".to_owned())),
        "admin.admin_emails[1] duplicates an earlier admin email"
    );
    assert_eq!(
        complaint(|c| c.admin.admin_emails = vec!["ada".to_owned()]),
        "admin.admin_emails[0] must contain @"
    );
    assert_eq!(
        complaint(|c| c.admin.admin_emails = vec![String::new()]),
        "admin.admin_emails[0] must not be empty"
    );
}

#[test]
fn the_default_provider_is_configured() {
    assert_eq!(
        complaint(|c| c.identity_providers.default = None),
        "identity_providers.default is required when identity providers are configured"
    );
    assert_eq!(
        complaint(|c| c.identity_providers.default = Some("other".to_owned())),
        "identity_providers.default \"other\" is not configured"
    );
    assert_eq!(
        complaint(|c| c.identity_providers.providers.clear()),
        "identity_providers.default must reference a configured provider"
    );
    assert_eq!(
        complaint(|c| c.identity_providers = IdentityProvidersConfig::default()),
        "fine"
    );
}

#[test]
fn providers_are_complete() {
    let prefix = "identity_providers.providers[\"google\"]";
    let cases: Vec<(fn(&mut IdentityProviderConfig), &str)> = vec![
        (|p| p.provider_type.clear(), ".type is required"),
        (|p| p.provider_type = "saml".to_owned(), ".type \"saml\" is unknown"),
        (|p| p.profile = "okta".to_owned(), ".profile \"okta\" is unknown"),
        (|p| p.issuer.clear(), ".issuer is required"),
        (|p| p.client_id.clear(), ".client_id is required"),
        (|p| p.client_secret_file.clear(), ".client_secret_file is required"),
        (|p| p.redirect_url.clear(), ".redirect_url is required"),
        (
            |p| p.redirect_url = "https://bridge.example.com/other".to_owned(),
            ".redirect_url path must be \"/auth/google/callback\"",
        ),
        (|p| p.scopes = vec!["email".to_owned()], ".scopes must include openid"),
        (
            |p| {
                p.subject = SubjectConfig {
                    strategy: "entra_oid_tid".to_owned(),
                    required_tid: " ".to_owned(),
                }
            },
            ".subject.required_tid is required for entra_oid_tid",
        ),
        (
            |p| p.subject.strategy = "email".to_owned(),
            ".subject.strategy \"email\" is not a stable identity key",
        ),
        (|p| p.subject.strategy = "x".to_owned(), ".subject.strategy \"x\" is unknown"),
        (
            |p| {
                p.trust = TrustConfig {
                    email_binding: "always".to_owned(),
                    ..Default::default()
                }
            },
            ".trust.email_binding \"always\" is unknown",
        ),
        (
            |p| p.trust.personal_accounts = "maybe".to_owned(),
            ".trust.personal_accounts \"maybe\" is unknown",
        ),
        (
            |p| {
                p.profile = "entra".to_owned();
                p.trust.personal_accounts = "deny".to_owned();
            },
            ".trust.personal_accounts is only valid for google profile",
        ),
        (|p| p.pkce = "plain".to_owned(), ".pkce \"plain\" is unknown"),
    ];
    for (change, end) in cases {
        assert_eq!(provider_complaint(change), format!("{prefix}{end}"));
    }
    assert_eq!(
        provider_complaint(|p| p.issuer = "x".to_owned()),
        "identity_providers.providers.google.issuer must be an absolute URL"
    );
    assert_eq!(
        provider_complaint(|p| p.redirect_url = "ftp://x/y".to_owned()),
        "identity_providers.providers.google.redirect_url scheme must be one of http, https"
    );
}

#[test]
fn provider_names_are_safe() {
    let long = "a".repeat(64);
    let with = |id: &str| {
        let mut config = good();
        config.identity_providers = named(id, provider(id));
        config.apply_defaults();
        config.validate(&vec![])
    };
    assert!(with("a").is_ok());
    assert!(with("0-a_b").is_ok());
    assert!(with(&long[..63]).is_ok());
    for id in ["-a", "A", "a b", long.as_str()] {
        assert_eq!(
            with(id).unwrap_err(),
            ConfigError::Validate(format!(
                "identity_providers.providers[{id:?}] has an unsafe provider id"
            ))
        );
    }
}

#[test]
fn hosts_have_no_brackets() {
    assert_eq!(public_host("https://Bridge.Example.com/x").unwrap(), "bridge.example.com");
    assert_eq!(public_host("http://[::1]:8080").unwrap(), "::1");
    assert_eq!(public_host("http://127.0.0.1").unwrap(), "127.0.0.1");
    assert!(public_host("bridge").is_err());
}
