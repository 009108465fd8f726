use base64::engine::general_purpose::URL_SAFE_NO_PAD;
use base64::Engine;
use lore_auth_adapters::claims::{bool_claim, jwt_claims, string_claim, Claim, ClaimValue};
use lore_auth_adapters::config::{ClaimName, IdentityProviderConfig};
use lore_auth_adapters::error::CoreError;
use lore_auth_adapters::idpregistry::Registry;
use lore_auth_adapters::model::{
    BeginAuthRequest, CompleteAuthRequest, ExternalIdentity, IdentityProviderDescriptor,
};
use lore_auth_adapters::oidc::{check_nonce, mac_has_length, nonce_matches, Config, Provider};
use lore_auth_adapters::rs256::keys::SigningKey;
use lore_auth_adapters::staticidp;
use lore_auth_adapters::time::{Moment, Span};
use lore_auth_adapters::urls::remove_query_param;

fn invalid(message: &str) -> CoreError {
    CoreError::InvalidArgument(message.to_owned())
}

fn config() -> Config {
    Config {
        provider_id: " google ".to_owned(),
        profile: "google".to_owned(),
        issuer: "https://issuer".to_owned(),
        client_id: "client".to_owned(),
        ..Default::default()
    }
}

fn made(config: Config) -> Provider {
    match Provider::from_metadata(config, "https://issuer".to_owned()) {
        Ok(provider) => provider,
        Err(e) => panic!("{e:?}"),
    }
}

fn refused(config: Config) -> CoreError {
    match Provider::from_metadata(config, "https://issuer".to_owned()) {
        Ok(_) => panic!("accepted"),
        Err(e) => e,
    }
}

fn token(payload: &str) -> String {
    format!("e30.{}.c2ln", URL_SAFE_NO_PAD.encode(payload))
}

fn verified() -> Option<(String, String)> {
    Some(("https://issuer".to_owned(), "sub-1".to_owned()))
}

fn begin(nonce: &str, hint: &str) -> BeginAuthRequest {
    BeginAuthRequest {
        state: "s t".to_owned(),
        nonce: nonce.to_owned(),
        redirect_url: "https://bridge/auth/static/callback?x=1".to_owned(),
        login_hint: hint.to_owned(),
    }
}

#[test]
fn providers_need_a_name_an_issuer_and_a_client() {
    let provider = made(config());
    let descriptor = provider.descriptor();
    assert_eq!(descriptor.id, "google");
    assert_eq!(descriptor.provider_type, "oidc");
    assert_eq!(descriptor.display_name, "google");
    assert_eq!(descriptor.issuer, "https://issuer");
    assert_eq!(descriptor.trust_policy.email_binding, "disabled");
    assert_eq!(provider.subject_strategy, "oidc_sub");
    assert_eq!(provider.scopes, vec!["openid", "email", "profile"]);
    assert_eq!(
        refused(Config { provider_id: " ".to_owned(), ..config() }),
        invalid("oidc: provider id is required")
    );
    assert_eq!(
        refused(Config { issuer: String::new(), ..config() }),
        invalid("oidc: issuer is required")
    );
    assert_eq!(
        refused(Config { client_id: String::new(), ..config() }),
        invalid("oidc: client id is required")
    );
    assert_eq!(
        refused(Config { personal_accounts: "maybe".to_owned(), ..config() }),
        invalid("oidc: personal_accounts \"maybe\" is unknown")
    );
    assert_eq!(
        refused(Config { personal_accounts: "deny".to_owned(), profile: String::new(), ..config() }),
        invalid("oidc: personal_accounts is only valid for google profile")
    );
}

#[test]
fn provider_settings_are_carried_over() {
    let mut given = IdentityProviderConfig::default();
    given.profile = "keycloak".to_owned();
    given.claims = vec![ClaimName { canonical: " email ".to_owned(), claim: " mail ".to_owned() }];
    given.trust.hosted_domain.allowed = vec!["example.com".to_owned()];
    let config = Config::from_provider_config("kc".to_owned(), &given, "secret".to_owned());
    assert_eq!(config.provider_id, "kc");
    assert_eq!(config.client_secret, "secret");
    assert_eq!(config.profile, "keycloak");
    assert_eq!(config.allowed_hosted_domains, vec!["example.com"]);
    let provider = made(Config {
        issuer: "https://issuer".to_owned(),
        client_id: "client".to_owned(),
        ..config
    });
    assert_eq!(provider.claim("email", "email"), "mail");
    assert_eq!(provider.claim("name", "name"), "name");
}

#[test]
fn claims_become_an_identity() {
    let provider = made(Config {
        claim_mapping: vec![ClaimName { canonical: "email".to_owned(), claim: "mail".to_owned() }],
        ..config()
    });
    let raw = token(
        "{\"mail\":\"ada@example.com\",\"email\":\"no\",\"email_verified\":\" TRUE \",\"name\":\"Ada\",\"hd\":\"Example.com\",\"picture\":7}",
    );
    let identity = provider.complete_verified(&raw, verified()).unwrap();
    assert_eq!(
        identity,
        ExternalIdentity {
            provider_id: "google".to_owned(),
            issuer: "https://issuer".to_owned(),
            subject: "sub-1".to_owned(),
            subject_strategy: "oidc_sub".to_owned(),
            email: "ada@example.com".to_owned(),
            email_verified: true,
            display_name: "Ada".to_owned(),
            hosted_domain: "Example.com".to_owned(),
            ..Default::default()
        }
    );
}

#[test]
fn hosted_domains_are_held_to() {
    let with = |domains: &[&str], accounts: &str, payload: &str| {
        made(Config {
            allowed_hosted_domains: domains.iter().map(|d| (*d).to_owned()).collect(),
            personal_accounts: accounts.to_owned(),
            ..config()
        })
        .complete_verified(&token(payload), verified())
        .map(|identity| identity.hosted_domain)
    };
    assert_eq!(with(&[" EXAMPLE.com "], "", "{\"hd\":\"example.COM\"}").unwrap(), "example.COM");
    assert_eq!(with(&["other.org"], "", "{\"hd\":\"example.com\"}").unwrap_err(), CoreError::PermissionDenied);
    assert_eq!(with(&[], "deny", "{}").unwrap_err(), CoreError::PermissionDenied);
    assert_eq!(with(&[], "deny", "{\"hd\":\"x\"}").unwrap(), "x");
    assert_eq!(with(&[], "allow", "{}").unwrap(), "");
}

#[test]
fn subjects_follow_the_strategy() {
    let with = |strategy: &str, tenant: &str, payload: &str| {
        made(Config {
            profile: "entra".to_owned(),
            subject_strategy: strategy.to_owned(),
            required_tenant_id: tenant.to_owned(),
            ..config()
        })
        .complete_verified(&token(payload), verified())
        .map(|identity| identity.subject)
    };
    assert_eq!(with("", "", "{}").unwrap(), "sub-1");
    assert_eq!(with("entra_oid_tid", "t", "{\"tid\":\"t\",\"oid\":\"o\"}").unwrap(), "t:o");
    assert_eq!(
        with("entra_oid_tid", "t", "{\"tid\":\"u\",\"oid\":\"o\"}").unwrap_err(),
        CoreError::PermissionDenied
    );
    assert_eq!(
        with("entra_oid_tid", "", "{\"tid\":\"u\"}").unwrap_err(),
        invalid("oidc: entra_oid_tid requires tid and oid claims")
    );
    assert_eq!(
        with("email", "", "{}").unwrap_err(),
        invalid("oidc: unsupported subject strategy \"email\"")
    );
}

#[test]
fn broken_tokens_are_refused() {
    assert_eq!(jwt_claims("abc").unwrap_err(), invalid("oidc: malformed id token"));
    assert_eq!(
        jwt_claims(&token("[1]")).unwrap_err(),
        invalid("oidc: id token claims must be object")
    );
    assert!(matches!(
        jwt_claims("a.*.c").unwrap_err(),
        CoreError::InvalidArgument(m) if m.starts_with("oidc: decode id token: ")
    ));
    assert!(matches!(
        jwt_claims(&token("{")).unwrap_err(),
        CoreError::InvalidArgument(m) if m.starts_with("oidc: decode id token claims: ")
    ));
}

#[test]
fn claims_are_read_by_name() {
    let claims = jwt_claims(&token("{\"a\":\"x\",\"b\":true,\"c\":1,\"d\":\"yes\"}")).unwrap();
    assert_eq!(claims.len(), 4);
    assert_eq!(string_claim(&claims, "a"), "x");
    assert_eq!(string_claim(&claims, "b"), "");
    assert!(bool_claim(&claims, "b"));
    assert!(!bool_claim(&claims, "c"));
    assert!(!bool_claim(&claims, "d"));
    assert!(!bool_claim(&claims, "e"));
    let one = vec![Claim { name: "n".to_owned(), value: ClaimValue::Other }];
    assert_eq!(string_claim(&one, "n"), "");
}

#[test]
fn requests_leave_out_what_the_client_adds() {
    let provider = made(Config { pkce: " required ".to_owned(), ..config() });
    let request = provider.auth_request(&begin("n", "ada"));
    assert_eq!(request.scopes, vec!["email", "profile"]);
    assert_eq!(request.login_hint, Some("ada".to_owned()));
    assert!(request.pkce);
    let request = made(config()).auth_request(&begin("n", ""));
    assert_eq!(request.login_hint, None);
    assert!(!request.pkce);
}

#[test]
fn an_empty_nonce_is_not_sent() {
    let provider = made(config());
    let url = "https://issuer/auth?a=b%20c&nonce=&d=e".to_owned();
    let result = provider.begin_auth_result(&begin("", ""), url.clone(), vec![1]).unwrap();
    assert_eq!(result.redirect_url, "https://issuer/auth?a=b+c&d=e");
    assert_eq!(result.private_state, vec![1]);
    let result = provider.begin_auth_result(&begin("n", ""), url.clone(), vec![]).unwrap();
    assert_eq!(result.redirect_url, url);
    assert_eq!(
        remove_query_param("https://x/?k=1&l=2&k=3", "k"),
        Some("https://x/?l=2".to_owned())
    );
    assert_eq!(
        remove_query_param("https://x/p?k=1&l=a%20b#f%20g", "k"),
        Some("https://x/p?l=a+b#f%20g".to_owned())
    );
    assert_eq!(remove_query_param("https://x/p?k=1#f", "k"), Some("https://x/p?#f".to_owned()));
    assert_eq!(remove_query_param("no url", "k"), None);
}

const VERIFIER: &str = "dBjftJeZ4CVP-mB92K27uhbUJU1p1r_wW1gFWFOEjXk";

#[test]
fn a_login_begins_at_the_endpoint_of_the_provider() {
    let provider = made(Config {
        redirect_url: "https://bridge/auth/google/callback".to_owned(),
        ..config()
    });
    let endpoint = "https://issuer/auth?x=1#f";
    let req = begin("n", "ada@example.com");
    assert!(provider.request_fits(&req, endpoint));
    let begun = provider.begin_auth_with(&req, endpoint, Some(VERIFIER.to_owned())).unwrap();
    assert_eq!(
        begun.redirect_url,
        "https://issuer/auth?x=1&response_type=code&client_id=client&state=s+t\
         &code_challenge=E9Melhoa2OwvFrEMTJguCHaoeK1t8URWbuGJSstw-cM&code_challenge_method=S256\
         &redirect_uri=https%3A%2F%2Fbridge%2Fauth%2Fgoogle%2Fcallback\
         &scope=openid+email+profile&login_hint=ada%40example.com&nonce=n#f"
    );
    assert_eq!(
        begun.private_state,
        format!("{{\"code_verifier\":\"{VERIFIER}\"}}").into_bytes()
    );
    let begun = provider.begin_auth(&begin("", ""), "https://issuer/auth").unwrap();
    assert_eq!(
        begun.redirect_url,
        "https://issuer/auth?response_type=code&client_id=client&state=s+t\
         &redirect_uri=https%3A%2F%2Fbridge%2Fauth%2Fgoogle%2Fcallback&scope=openid+email+profile"
    );
    assert!(begun.private_state.is_empty());
}

#[test]
fn a_login_with_a_secret_draws_a_new_one_each_time() {
    let provider = made(Config {
        redirect_url: "https://bridge/cb".to_owned(),
        pkce: "required".to_owned(),
        ..config()
    });
    let one = provider.begin_auth(&begin("n", ""), "https://issuer/auth").unwrap();
    let two = provider.begin_auth(&begin("n", ""), "https://issuer/auth").unwrap();
    assert!(one.redirect_url.contains("code_challenge_method=S256"));
    assert_ne!(one.private_state, two.private_state);
    let text = String::from_utf8(one.private_state).unwrap();
    assert!(text.starts_with("{\"code_verifier\":\""));
    assert_eq!(text.len(), 43 + 20);
}

#[test]
fn addresses_that_are_none_are_refused() {
    let nowhere = made(Config { redirect_url: "nowhere".to_owned(), ..config() });
    let expected = invalid("oidc: redirect URL is invalid: relative URL without a base");
    assert_eq!(nowhere.check_redirect_url().unwrap_err(), expected);
    assert_eq!(
        nowhere.begin_auth(&begin("n", ""), "https://issuer/auth").unwrap_err(),
        expected
    );
    let somewhere = made(Config { redirect_url: "https://bridge/cb".to_owned(), ..config() });
    assert_eq!(
        somewhere.begin_auth(&begin("n", ""), "auth").unwrap_err(),
        invalid("oidc: authorization endpoint is invalid")
    );
}

fn signing_key() -> SigningKey {
    SigningKey::generate("k1".to_owned(), 1024).unwrap_or_else(|e| panic!("{e:?}"))
}

fn key_set(key: &SigningKey) -> String {
    let jwk = key.jwk();
    format!(
        "{{\"keys\":[{{\"kty\":\"RSA\",\"use\":\"sig\",\"kid\":\"k1\",\"n\":\"{}\",\"e\":\"{}\"}}]}}",
        jwk.n, jwk.e
    )
}

fn id_token(key: &SigningKey, payload: &str) -> String {
    let pem = key.private_pem().unwrap_or_else(|e| panic!("{e:?}"));
    let secret = jsonwebtoken::EncodingKey::from_rsa_pem(pem.as_bytes()).unwrap();
    let input = format!(
        "{}.{}",
        URL_SAFE_NO_PAD.encode("{\"alg\":\"RS256\",\"kid\":\"k1\"}"),
        URL_SAFE_NO_PAD.encode(payload)
    );
    let algorithm = jsonwebtoken::Algorithm::RS256;
    let signature = jsonwebtoken::crypto::sign(input.as_bytes(), &secret, algorithm).unwrap();
    format!("{input}.{signature}")
}

fn at(secs: u64) -> Moment {
    Moment::SinceEpoch(Span { secs, nanos: 0 })
}

const CLAIMS: &str = "{\"iss\":\"https://issuer\",\"aud\":\"client\",\"sub\":\"sub-1\",\
    \"iat\":1000,\"exp\":2000,\"nonce\":\"n\",\"email\":\"ada@example.com\",\
    \"email_verified\":true,\"hd\":\"example.com\"}";

#[test]
fn a_good_token_completes_a_login() {
    let provider = made(config());
    let key = signing_key();
    let jwks = key_set(&key);
    let raw = id_token(&key, CLAIMS);
    let algs = "[\"RS256\"]";
    let complete = |jwks: &str, algs: &str, raw: &str, nonce: &str, now: u64| {
        provider.complete_auth_at(raw, jwks, algs, nonce, &at(now))
    };
    let identity = complete(&jwks, algs, &raw, "n", 1999).unwrap();
    assert_eq!(identity.provider_id, "google");
    assert_eq!(identity.issuer, "https://issuer");
    assert_eq!(identity.subject, "sub-1");
    assert_eq!(identity.email, "ada@example.com");
    assert!(identity.email_verified);
    assert!(complete(&jwks, algs, &raw, "", 1999).is_ok());
    let refused = Err(CoreError::Unauthenticated);
    assert_eq!(complete(&jwks, algs, &raw, "m", 1999), refused);
    assert_eq!(complete(&jwks, algs, &raw, "n", 2000), refused);
    assert_eq!(complete(&jwks, "[\"ES256\"]", &raw, "n", 1999), refused);
    assert_eq!(complete(&jwks, "RS256", &raw, "n", 1999), refused);
    assert_eq!(complete("{\"keys\":[]}", algs, &raw, "n", 1999), refused);
    assert_eq!(complete("keys", algs, &raw, "n", 1999), refused);
    assert_eq!(complete(&key_set(&signing_key()), algs, &raw, "n", 1999), refused);
    assert_eq!(complete(&jwks, algs, "token", "n", 1999), refused);
    let other = id_token(&key, &CLAIMS.replace("https://issuer", "https://other"));
    assert_eq!(complete(&jwks, algs, &other, "n", 1999), refused);
    let other = id_token(&key, &CLAIMS.replace("client", "someone"));
    assert_eq!(complete(&jwks, algs, &other, "n", 1999), refused);
    let parts: Vec<&str> = raw.split('.').collect();
    let altered = format!(
        "{}.{}.{}",
        parts[0],
        URL_SAFE_NO_PAD.encode(CLAIMS.replace("sub-1", "sub-2")),
        parts[2]
    );
    assert_eq!(complete(&jwks, algs, &altered, "n", 1999), refused);
    assert_eq!(complete(&jwks, algs, &raw, "n", u64::MAX), refused);
    let before = Moment::BeforeEpoch("second time provided was later than self".to_owned());
    assert_eq!(provider.complete_auth_at(&raw, &jwks, algs, "n", &before), refused);
    assert_eq!(provider.complete_auth(&raw, &jwks, algs, "n"), refused);
    let lasting = id_token(&key, &CLAIMS.replace("2000", "4000000000"));
    assert!(provider.complete_auth(&lasting, &jwks, algs, "n").is_ok());
}

fn mac_token(name: &str, algorithm: jsonwebtoken::Algorithm) -> String {
    let secret = jsonwebtoken::EncodingKey::from_secret(b"hush");
    let header = format!("{{\"alg\":\"{name}\"}}");
    let input = format!("{}.{}", URL_SAFE_NO_PAD.encode(header), URL_SAFE_NO_PAD.encode(CLAIMS));
    let code = jsonwebtoken::crypto::sign(input.as_bytes(), &secret, algorithm).unwrap();
    format!("{input}.{code}")
}

#[test]
fn codes_of_another_length_are_refused() {
    let provider = made(Config { client_secret: "hush".to_owned(), ..config() });
    let stranger = made(Config { client_secret: "rush".to_owned(), ..config() });
    let algs = "[\"HS256\",\"HS384\",\"HS512\"]";
    let jwks = "{\"keys\":[]}";
    let refused = Err(CoreError::Unauthenticated);
    let cases = [
        ("HS256", jsonwebtoken::Algorithm::HS256, 43),
        ("HS384", jsonwebtoken::Algorithm::HS384, 64),
        ("HS512", jsonwebtoken::Algorithm::HS512, 86),
    ];
    for (name, algorithm, letters) in cases {
        let raw = mac_token(name, algorithm);
        let (input, code) = raw.rsplit_once('.').unwrap();
        assert_eq!(code.len(), letters);
        let identity = provider.complete_auth_at(&raw, jwks, algs, "n", &at(1999)).unwrap();
        assert_eq!(identity.subject, "sub-1");
        assert_eq!(stranger.complete_auth_at(&raw, jwks, algs, "n", &at(1999)), refused);
        for other in ["", "AA", &code[..letters - 1], &"A".repeat(88), &"A".repeat(256)] {
            let cut = format!("{input}.{other}");
            assert_eq!(provider.complete_auth_at(&cut, jwks, algs, "n", &at(1999)), refused);
            assert!(!mac_has_length(&cut, &Some(name.to_owned())));
            assert!(mac_has_length(&cut, &Some("RS256".to_owned())));
            assert!(mac_has_length(&cut, &None));
        }
        assert!(mac_has_length(&raw, &Some(name.to_owned())));
    }
    assert!(!mac_has_length("token", &Some("HS256".to_owned())));
}

#[test]
fn a_code_in_a_header_of_another_shape_is_refused() {
    let provider = made(Config { client_secret: "hush".to_owned(), ..config() });
    let deep = format!("{{\"alg\":\"HS256\",\"x\":{}{}}}", "[".repeat(200), "]".repeat(200));
    for header in ["[\"HS256\",null,null,null,null]", deep.as_str()] {
        let raw = format!(
            "{}.{}.AA",
            URL_SAFE_NO_PAD.encode(header),
            URL_SAFE_NO_PAD.encode(CLAIMS)
        );
        assert_eq!(
            provider.complete_auth_at(&raw, "{\"keys\":[]}", "[\"HS256\"]", "n", &at(1999)),
            Err(CoreError::Unauthenticated)
        );
    }
}

#[test]
fn what_was_verified_decides() {
    let provider = made(config());
    let raw = token("{\"email\":\"ada@example.com\",\"hd\":\"example.com\"}");
    assert_eq!(provider.complete_verified(&raw, None), Err(CoreError::Unauthenticated));
    let identity = provider.complete_verified(&raw, verified()).unwrap();
    assert_eq!(identity.subject, "sub-1");
    assert_eq!(identity.email, "ada@example.com");
    assert!(provider.complete_verified("no token", verified()).is_err());
    assert_eq!(check_nonce("n", Some("n".to_owned())), Ok(()));
    assert!(check_nonce("n", None).is_err());
}

#[test]
fn nonces_are_compared_where_one_is_expected() {
    assert!(nonce_matches("", &None));
    assert!(nonce_matches("n", &Some("n".to_owned())));
    assert!(!nonce_matches("n", &Some("m".to_owned())));
    assert!(!nonce_matches("n", &None));
}

#[test]
fn the_verifier_is_kept_where_it_is_required() {
    let strict = made(Config { pkce: "required".to_owned(), ..config() });
    let loose = made(config());
    let missing = invalid("oidc: pkce code_verifier missing");
    assert_eq!(strict.token_exchange_verifier(None).unwrap_err(), missing);
    assert_eq!(loose.token_exchange_verifier(None).unwrap(), None);
    assert_eq!(
        strict.token_exchange_verifier(Some(Ok(Some("v".to_owned())))).unwrap(),
        Some("v".to_owned())
    );
    assert_eq!(strict.token_exchange_verifier(Some(Ok(Some(String::new())))).unwrap_err(), missing);
    assert_eq!(loose.token_exchange_verifier(Some(Ok(None))).unwrap(), None);
    assert_eq!(
        loose.token_exchange_verifier(Some(Err("bad".to_owned()))).unwrap_err(),
        invalid("oidc: decode private state: bad")
    );
}

fn fixed() -> staticidp::Config {
    staticidp::Config {
        provider_id: " static ".to_owned(),
        issuer: "https://issuer".to_owned(),
        subject: "sub-1".to_owned(),
        email: "ada@example.com".to_owned(),
        email_verified: true,
        name: "Ada".to_owned(),
        ..Default::default()
    }
}

fn fixed_provider(config: staticidp::Config) -> Result<staticidp::Provider, CoreError> {
    staticidp::Provider::new(config)
}

#[test]
fn a_static_provider_answers_with_its_identity() {
    let provider = fixed_provider(fixed()).unwrap_or_else(|e| panic!("{e:?}"));
    assert_eq!(provider.descriptor().id, "static");
    assert_eq!(provider.descriptor().provider_type, "static");
    assert_eq!(provider.descriptor().display_name, "static");
    let begun = provider.begin_auth(begin("n", "")).unwrap();
    assert_eq!(
        begun.redirect_url,
        "https://bridge/auth/static/callback?x=1&state=s+t&code=static"
    );
    let complete = |code: &str| CompleteAuthRequest {
        code: code.to_owned(),
        ..Default::default()
    };
    let identity = provider.complete_auth(complete("static")).unwrap();
    assert_eq!(identity.subject, "sub-1");
    assert_eq!(identity.display_name, "Ada");
    assert!(identity.email_verified);
    assert_eq!(
        provider.complete_auth(complete("other")).unwrap_err(),
        invalid("staticidp: invalid callback code")
    );
    let mut nowhere = begin("n", "");
    nowhere.redirect_url = "nowhere".to_owned();
    assert!(matches!(
        provider.begin_auth(nowhere).unwrap_err(),
        CoreError::InvalidArgument(m) if m.starts_with("staticidp: parse callback url: ")
    ));
}

#[test]
fn a_static_provider_needs_its_parts() {
    let refused = |config: staticidp::Config| match fixed_provider(config) {
        Ok(_) => panic!("accepted"),
        Err(e) => e,
    };
    assert_eq!(
        refused(staticidp::Config { provider_id: String::new(), ..fixed() }),
        invalid("staticidp: provider id is required")
    );
    assert_eq!(
        refused(staticidp::Config { issuer: " ".to_owned(), ..fixed() }),
        invalid("staticidp: issuer is required")
    );
    assert_eq!(
        refused(staticidp::Config { subject: String::new(), ..fixed() }),
        invalid("staticidp: subject is required")
    );
}

#[test]
fn a_registry_finds_its_providers_and_lists_them_by_name() {
    let descriptor = |id: &str| IdentityProviderDescriptor {
        id: id.to_owned(),
        ..Default::default()
    };
    let mut registry: Registry<u32> = Registry::new("b".to_owned());
    registry.register(descriptor("b"), 2).unwrap();
    registry.register(descriptor("a"), 1).unwrap();
    assert_eq!(
        registry.register(descriptor("a"), 3).unwrap_err(),
        invalid("idp registry: duplicate provider id \"a\"")
    );
    assert_eq!(
        registry.register(descriptor(""), 3).unwrap_err(),
        invalid("idp registry: provider id is required")
    );
    assert_eq!(registry.get("a"), Some(&1));
    assert_eq!(registry.get("c"), None);
    assert_eq!(registry.default_id(), "b");
    let ids: Vec<String> = registry.list().into_iter().map(|d| d.id).collect();
    assert_eq!(ids, vec!["a", "b"]);
}
