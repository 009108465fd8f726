//! Identity providers that speak OpenID Connect: what to ask them for and what to
//! make of their answers.

use std::time::{Duration, UNIX_EPOCH};

use openidconnect::{
    AuthUrl, ClientId, ClientSecret, CsrfToken, IssuerUrl, Nonce, PkceCodeChallenge,
    PkceCodeVerifier, RedirectUrl, Scope,
};
use vstd::prelude::*;

use crate::claims;
use crate::claims::{bool_claim, jwt_claims, string_claim, Claim, ClaimValueView};
use crate::config::defaults;
use crate::config::defaults::default_scopes;
use crate::config::{ClaimName, ClaimNameView, IdentityProviderConfig, IdentityProviderConfigView};
use crate::encoding;
use crate::encoding::bytes_of;
use crate::error;
use crate::error::{invalid, CoreError, CoreErrorView};
use crate::model::{
    BeginAuthRequest, BeginAuthRequestView, BeginAuthResult, BeginAuthResultView, ExternalIdentity,
    ExternalIdentityView, IdentityProviderDescriptor, IdentityProviderDescriptorView,
    LoginTrustPolicy, LoginTrustPolicyView,
};
use crate::json;
use crate::json::{object_text, text_member};
use crate::order;
use crate::table::Table;
use crate::text;
use crate::text::{
    cat2, cat3, characters, copy_texts, debug_text, drop_text, has_member, is_blank, same,
    split,
};
use crate::time::{clock, Moment, Span};
use crate::urls;
use crate::urls::{parse_parts, remove_query_param};

verus! {

/// An OIDC identity provider as it is configured.
#[derive(Debug, PartialEq, Eq)]
pub struct Config {
    pub provider_id: String,
    pub profile: String,
    pub display_name: String,
    pub issuer: String,
    pub client_id: String,
    pub client_secret: String,
    pub redirect_url: String,
    pub scopes: Vec<String>,
    pub claim_mapping: Vec<ClaimName>,
    pub subject_strategy: String,
    pub required_tenant_id: String,
    pub email_binding: String,
    pub pkce: String,
    pub allowed_email_domains: Vec<String>,
    pub allowed_hosted_domains: Vec<String>,
    pub personal_accounts: String,
}

/// The view of [`Config`].
#[verifier::ext_equal]
pub struct ConfigView {
    pub provider_id: Seq<char>,
    pub profile: Seq<char>,
    pub display_name: Seq<char>,
    pub issuer: Seq<char>,
    pub client_id: Seq<char>,
    pub client_secret: Seq<char>,
    pub redirect_url: Seq<char>,
    pub scopes: Seq<Seq<char>>,
    pub claim_mapping: Seq<ClaimNameView>,
    pub subject_strategy: Seq<char>,
    pub required_tenant_id: Seq<char>,
    pub email_binding: Seq<char>,
    pub pkce: Seq<char>,
    pub allowed_email_domains: Seq<Seq<char>>,
    pub allowed_hosted_domains: Seq<Seq<char>>,
    pub personal_accounts: Seq<char>,
}

impl View for Config {
    type V = ConfigView;

    open spec fn view(&self) -> ConfigView {
        ConfigView {
            provider_id: self.provider_id@,
            profile: self.profile@,
            display_name: self.display_name@,
            issuer: self.issuer@,
            client_id: self.client_id@,
            client_secret: self.client_secret@,
            redirect_url: self.redirect_url@,
            scopes: text::texts(self.scopes@),
            claim_mapping: order::views(self.claim_mapping@),
            subject_strategy: self.subject_strategy@,
            required_tenant_id: self.required_tenant_id@,
            email_binding: self.email_binding@,
            pkce: self.pkce@,
            allowed_email_domains: text::texts(self.allowed_email_domains@),
            allowed_hosted_domains: text::texts(self.allowed_hosted_domains@),
            personal_accounts: self.personal_accounts@,
        }
    }
}

impl Config {
    /// The view of the default value: every field empty.
    pub open spec fn blank() -> ConfigView {
        ConfigView {
            provider_id: Seq::empty(),
            profile: Seq::empty(),
            display_name: Seq::empty(),
            issuer: Seq::empty(),
            client_id: Seq::empty(),
            client_secret: Seq::empty(),
            redirect_url: Seq::empty(),
            scopes: Seq::empty(),
            claim_mapping: Seq::empty(),
            subject_strategy: Seq::empty(),
            required_tenant_id: Seq::empty(),
            email_binding: Seq::empty(),
            pkce: Seq::empty(),
            allowed_email_domains: Seq::empty(),
            allowed_hosted_domains: Seq::empty(),
            personal_accounts: Seq::empty(),
        }
    }
}

impl Default for Config {
    fn default() -> (r: Self)
        ensures
            r@ == Self::blank(),
    {
        Config {
            provider_id: String::new(),
            profile: String::new(),
            display_name: String::new(),
            issuer: String::new(),
            client_id: String::new(),
            client_secret: String::new(),
            redirect_url: String::new(),
            scopes: Vec::new(),
            claim_mapping: Vec::new(),
            subject_strategy: String::new(),
            required_tenant_id: String::new(),
            email_binding: String::new(),
            pkce: String::new(),
            allowed_email_domains: Vec::new(),
            allowed_hosted_domains: Vec::new(),
            personal_accounts: String::new(),
        }
    }
}


fn copy_claim_names(v: &Vec<ClaimName>) -> (r: Vec<ClaimName>)
    ensures
        order::views(r@) == order::views(v@),
{
    let mut out: Vec<ClaimName> = Vec::new();
    let mut i: usize = 0;
    while i < v.len()
        invariant
            i <= v@.len(),
            out@.len() == i,
            forall|j: int| 0 <= j < i ==> (#[trigger] out@[j])@ == v@[j]@,
        decreases v@.len() - i,
    {
        out.push(v[i].clone());
        i += 1;
    }
    assert(order::views(out@) =~= order::views(v@));
    out
}

/// The provider of a configuration, with its secret.
pub open spec fn config_of(
    provider_id: Seq<char>,
    p: IdentityProviderConfigView,
    client_secret: Seq<char>,
) -> ConfigView {
    ConfigView {
        provider_id,
        profile: p.profile,
        display_name: p.display_name,
        issuer: p.issuer,
        client_id: p.client_id,
        client_secret,
        redirect_url: p.redirect_url,
        scopes: p.scopes,
        claim_mapping: p.claims,
        subject_strategy: p.subject.strategy,
        required_tenant_id: p.subject.required_tid,
        email_binding: p.trust.email_binding,
        pkce: p.pkce,
        allowed_email_domains: p.trust.allowed_email_domains,
        allowed_hosted_domains: p.trust.hosted_domain.allowed,
        personal_accounts: p.trust.personal_accounts,
    }
}

impl Config {
    /// The provider of a configuration, with its secret.
    pub fn from_provider_config(
        provider_id: String,
        provider: &IdentityProviderConfig,
        client_secret: String,
    ) -> (r: Self)
        ensures
            r@ == config_of(provider_id@, provider@, client_secret@),
    {
        Config {
            provider_id,
            profile: provider.profile.clone(),
            display_name: provider.display_name.clone(),
            issuer: provider.issuer.clone(),
            client_id: provider.client_id.clone(),
            client_secret,
            redirect_url: provider.redirect_url.clone(),
            scopes: copy_texts(&provider.scopes),
            claim_mapping: copy_claim_names(&provider.claims),
            subject_strategy: provider.subject.strategy.clone(),
            required_tenant_id: provider.subject.required_tid.clone(),
            email_binding: provider.trust.email_binding.clone(),
            pkce: provider.pkce.clone(),
            allowed_email_domains: copy_texts(&provider.trust.allowed_email_domains),
            allowed_hosted_domains: copy_texts(&provider.trust.hosted_domain.allowed),
            personal_accounts: provider.trust.personal_accounts.clone(),
        }
    }
}

// ---------------------------------------------------------------------------
// Making a provider
// ---------------------------------------------------------------------------

/// Why a configuration is of no use; none where it is.
pub open spec fn config_refusal(c: ConfigView) -> Option<CoreErrorView> {
    let accounts = text::trimmed(c.personal_accounts);
    if text::trimmed(c.provider_id).len() == 0 {
        Some(CoreErrorView::InvalidArgument("oidc: provider id is required"@))
    } else if text::trimmed(c.issuer).len() == 0 {
        Some(CoreErrorView::InvalidArgument("oidc: issuer is required"@))
    } else if text::trimmed(c.client_id).len() == 0 {
        Some(CoreErrorView::InvalidArgument("oidc: client id is required"@))
    } else if accounts.len() > 0 && accounts != "allow"@ && accounts != "deny"@ {
        Some(
            CoreErrorView::InvalidArgument(
                "oidc: personal_accounts "@ + text::debug_quoted(accounts) + " is unknown"@,
            ),
        )
    } else if accounts.len() > 0 && text::trimmed(c.profile) != "google"@ {
        Some(
            CoreErrorView::InvalidArgument(
                "oidc: personal_accounts is only valid for google profile"@,
            ),
        )
    } else {
        None
    }
}

/// A configuration without the whitespace around its names.
pub open spec fn trimmed_config(c: ConfigView) -> ConfigView {
    ConfigView {
        provider_id: text::trimmed(c.provider_id),
        issuer: text::trimmed(c.issuer),
        client_id: text::trimmed(c.client_id),
        profile: text::trimmed(c.profile),
        personal_accounts: text::trimmed(c.personal_accounts),
        ..c
    }
}

/// A configuration without the whitespace around its names, if it is of use.
pub fn normalized_config(config: Config) -> (r: Result<Config, CoreError>)
    ensures
        match r {
            Ok(c) => config_refusal(config@) is None && c@ == trimmed_config(config@),
            Err(e) => config_refusal(config@) == Some(e@),
        },
{
    let ghost given = config@;
    let mut c = config;
    c.provider_id = c.provider_id.as_str().trim().to_owned();
    if c.provider_id.is_empty() {
        return Err(invalid("oidc: provider id is required"));
    }
    c.issuer = c.issuer.as_str().trim().to_owned();
    if c.issuer.is_empty() {
        return Err(invalid("oidc: issuer is required"));
    }
    c.client_id = c.client_id.as_str().trim().to_owned();
    if c.client_id.is_empty() {
        return Err(invalid("oidc: client id is required"));
    }
    c.profile = c.profile.as_str().trim().to_owned();
    c.personal_accounts = c.personal_accounts.as_str().trim().to_owned();
    let accounts = c.personal_accounts.as_str();
    if !accounts.is_empty() && !same(accounts, "allow") && !same(accounts, "deny") {
        let shown = debug_text(accounts);
        return Err(
            invalid(cat3("oidc: personal_accounts ", shown.as_str(), " is unknown").as_str()),
        );
    }
    if !accounts.is_empty() && !same(c.profile.as_str(), "google") {
        return Err(invalid("oidc: personal_accounts is only valid for google profile"));
    }
    assert(c@ =~= trimmed_config(given));
    Ok(c)
}

/// Domains in lower case, each once, without empty ones, in the order in which
/// they first occur.
pub open spec fn domain_list(values: Seq<Seq<char>>) -> Seq<Seq<char>>
    decreases values.len(),
{
    if values.len() == 0 {
        Seq::empty()
    } else {
        let before = domain_list(values.drop_last());
        let last = text::unicode_lower(text::trimmed(values.last()));
        if last.len() == 0 || before.contains(last) {
            before
        } else {
            before.push(last)
        }
    }
}

/// Domains in lower case, each once, without empty ones.
pub fn normalize_domain_list(values: &Vec<String>) -> (r: Vec<String>)
    ensures
        text::texts(r@) == domain_list(text::texts(values@)),
{
    let ghost all = text::texts(values@);
    let mut out: Vec<String> = Vec::new();
    let mut i: usize = 0;
    assert(text::texts(out@) =~= domain_list(all.take(0)));
    while i < values.len()
        invariant
            i <= values@.len(),
            all == text::texts(values@),
            text::texts(out@) == domain_list(all.take(i as int)),
        decreases values@.len() - i,
    {
        let ghost before = text::texts(out@);
        assert(all.take(i + 1).drop_last() =~= all.take(i as int));
        assert(all.take(i + 1).last() == values@[i as int]@);
        let value = values[i].as_str().trim().to_lowercase();
        if !value.is_empty() && !has_member(&out, value.as_str()) {
            let ghost view = value@;
            out.push(value);
            assert(text::texts(out@) =~= before.push(view));
        }
        i += 1;
    }
    assert(all.take(i as int) =~= all);
    out
}

/// Which claim stands for which of ours, without the whitespace around the
/// names. Where a name occurs more than once, the last counts.
pub open spec fn mapping_of(names: Seq<ClaimNameView>) -> Map<Seq<char>, Seq<char>>
    decreases names.len(),
{
    if names.len() == 0 {
        Map::empty()
    } else {
        mapping_of(names.drop_last()).insert(
            text::trimmed(names.last().canonical),
            text::trimmed(names.last().claim),
        )
    }
}

/// Which claim stands for which of ours.
pub fn copy_claim_mapping(names: &Vec<ClaimName>) -> (r: Table<String, String>)
    ensures
        r.wf(),
        r@ == mapping_of(order::views(names@)),
{
    let ghost all = order::views(names@);
    let mut out: Table<String, String> = Table::new();
    let mut i: usize = 0;
    assert(all.take(0).len() == 0);
    while i < names.len()
        invariant
            i <= names@.len(),
            all == order::views(names@),
            out.wf(),
            out@ == mapping_of(all.take(i as int)),
        decreases names@.len() - i,
    {
        assert(all.take(i + 1).drop_last() =~= all.take(i as int));
        assert(all.take(i + 1).last() == names@[i as int]@);
        out.insert(
            names[i].canonical.as_str().trim().to_owned(),
            names[i].claim.as_str().trim().to_owned(),
        );
        i += 1;
    }
    assert(all.take(i as int) =~= all);
    out
}

/// `value` without the whitespace around it, or `fallback` where nothing is left.
pub open spec fn text_or(value: Seq<char>, fallback: Seq<char>) -> Seq<char> {
    if text::trimmed(value).len() == 0 {
        fallback
    } else {
        text::trimmed(value)
    }
}

/// `value` without the whitespace around it, or `fallback` where nothing is left.
pub fn default_string(value: &str, fallback: &str) -> (r: String)
    ensures
        r@ == text_or(value@, fallback@),
{
    let value = value.trim();
    if value.is_empty() {
        fallback.to_owned()
    } else {
        value.to_owned()
    }
}

/// An OIDC identity provider.
pub struct Provider {
    pub id: String,
    pub profile: String,
    pub display_name: String,
    pub issuer: String,
    pub client_id: String,
    pub client_secret: String,
    pub redirect_url: String,
    pub scopes: Vec<String>,
    pub claim_mapping: Table<String, String>,
    pub subject_strategy: String,
    pub required_tenant_id: String,
    pub email_binding: String,
    pub pkce: String,
    pub allowed_email_domains: Vec<String>,
    pub allowed_hosted_domains: Vec<String>,
    pub personal_accounts: String,
}

/// The view of [`Provider`].
#[verifier::ext_equal]
pub struct ProviderView {
    pub id: Seq<char>,
    pub profile: Seq<char>,
    pub display_name: Seq<char>,
    pub issuer: Seq<char>,
    pub client_id: Seq<char>,
    pub client_secret: Seq<char>,
    pub redirect_url: Seq<char>,
    pub scopes: Seq<Seq<char>>,
    pub claim_mapping: Map<Seq<char>, Seq<char>>,
    pub subject_strategy: Seq<char>,
    pub required_tenant_id: Seq<char>,
    pub email_binding: Seq<char>,
    pub pkce: Seq<char>,
    pub allowed_email_domains: Seq<Seq<char>>,
    pub allowed_hosted_domains: Seq<Seq<char>>,
    pub personal_accounts: Seq<char>,
}

impl View for Provider {
    type V = ProviderView;

    open spec fn view(&self) -> ProviderView {
        ProviderView {
            id: self.id@,
            profile: self.profile@,
            display_name: self.display_name@,
            issuer: self.issuer@,
            client_id: self.client_id@,
            client_secret: self.client_secret@,
            redirect_url: self.redirect_url@,
            scopes: text::texts(self.scopes@),
            claim_mapping: self.claim_mapping@,
            subject_strategy: self.subject_strategy@,
            required_tenant_id: self.required_tenant_id@,
            email_binding: self.email_binding@,
            pkce: self.pkce@,
            allowed_email_domains: text::texts(self.allowed_email_domains@),
            allowed_hosted_domains: text::texts(self.allowed_hosted_domains@),
            personal_accounts: self.personal_accounts@,
        }
    }
}

/// The provider that a configuration makes, with the issuer that it advertises.
pub open spec fn provider_of(c: ConfigView, issuer: Seq<char>) -> ProviderView {
    let t = trimmed_config(c);
    ProviderView {
        id: t.provider_id,
        profile: t.profile,
        display_name: text_or(c.display_name, t.provider_id),
        issuer,
        client_id: t.client_id,
        client_secret: c.client_secret,
        redirect_url: c.redirect_url,
        scopes: if c.scopes.len() == 0 {
            defaults::usual_scopes()
        } else {
            c.scopes
        },
        claim_mapping: mapping_of(c.claim_mapping),
        subject_strategy: text_or(c.subject_strategy, "oidc_sub"@),
        required_tenant_id: text::trimmed(c.required_tenant_id),
        email_binding: text_or(c.email_binding, "disabled"@),
        pkce: text::trimmed(c.pkce),
        allowed_email_domains: domain_list(c.allowed_email_domains),
        allowed_hosted_domains: domain_list(c.allowed_hosted_domains),
        personal_accounts: t.personal_accounts,
    }
}

impl Provider {
    /// The table of claims has no name twice.
    pub open spec fn wf(&self) -> bool {
        self.claim_mapping.wf()
    }

    /// The provider that a configuration makes. `issuer` is the one that the
    /// provider advertises.
    pub fn from_metadata(config: Config, issuer: String) -> (r: Result<Self, CoreError>)
        ensures
            match r {
                Ok(p) => p.wf() && config_refusal(config@) is None && p@ == provider_of(
                    config@,
                    issuer@,
                ),
                Err(e) => config_refusal(config@) == Some(e@),
            },
    {
        let ghost given = config@;
        let c = match normalized_config(config) {
            Ok(c) => c,
            Err(e) => {
                return Err(e);
            },
        };
        let display_name = default_string(c.display_name.as_str(), c.provider_id.as_str());
        let scopes = if c.scopes.len() == 0 {
            default_scopes()
        } else {
            c.scopes
        };
        let personal_accounts = c.personal_accounts.as_str().trim().to_owned();
        proof {
            text::lemma_trimmed_twice(given.personal_accounts);
        }
        let p = Provider {
            id: c.provider_id,
            profile: c.profile,
            display_name,
            issuer,
            client_id: c.client_id,
            client_secret: c.client_secret,
            redirect_url: c.redirect_url,
            scopes,
            claim_mapping: copy_claim_mapping(&c.claim_mapping),
            subject_strategy: default_string(c.subject_strategy.as_str(), "oidc_sub"),
            required_tenant_id: c.required_tenant_id.as_str().trim().to_owned(),
            email_binding: default_string(c.email_binding.as_str(), "disabled"),
            pkce: c.pkce.as_str().trim().to_owned(),
            allowed_email_domains: normalize_domain_list(&c.allowed_email_domains),
            allowed_hosted_domains: normalize_domain_list(&c.allowed_hosted_domains),
            personal_accounts,
        };
        assert(p@ =~= provider_of(given, issuer@));
        Ok(p)
    }

    /// What the provider says of itself.
    pub fn descriptor(&self) -> (r: IdentityProviderDescriptor)
        ensures
            r@ == (IdentityProviderDescriptorView {
                id: self@.id,
                provider_type: "oidc"@,
                display_name: self@.display_name,
                issuer: self@.issuer,
                trust_policy: LoginTrustPolicyView {
                    email_binding: self@.email_binding,
                    allowed_email_domains: self@.allowed_email_domains,
                },
            }),
    {
        IdentityProviderDescriptor {
            id: self.id.clone(),
            provider_type: "oidc".to_owned(),
            display_name: self.display_name.clone(),
            issuer: self.issuer.clone(),
            trust_policy: LoginTrustPolicy {
                email_binding: self.email_binding.clone(),
                allowed_email_domains: copy_texts(&self.allowed_email_domains),
            },
        }
    }
}

// ---------------------------------------------------------------------------
// Beginning a login
// ---------------------------------------------------------------------------

/// How many characters texts have together, with one more for each.
pub open spec fn texts_len(v: Seq<Seq<char>>) -> nat
    decreases v.len(),
{
    if v.len() == 0 {
        0
    } else {
        texts_len(v.drop_last()) + v.last().len() + 1
    }
}

/// What a URL that a login begins at is made of, as far as it is not always the same.
pub open spec fn request_texts(
    endpoint: Seq<char>,
    client_id: Seq<char>,
    redirect_url: Seq<char>,
    state: Seq<char>,
    nonce: Seq<char>,
    scopes: Seq<Seq<char>>,
    hint: Option<Seq<char>>,
) -> Seq<Seq<char>> {
    let texts = seq![endpoint, client_id, redirect_url, state, nonce] + scopes;
    match hint {
        Some(hint) => texts.push(hint),
        None => texts,
    }
}

/// The characters that a URL can be made of and stay far below four gigabytes,
/// which no URL may reach.
pub const MAX_REQUEST_CHARS: usize = 0x0800_0000;

/// Whether texts have no more characters together than a URL can be made of.
pub fn texts_fit(v: &Vec<String>) -> (r: bool)
    ensures
        r == (texts_len(text::texts(v@)) <= MAX_REQUEST_CHARS),
{
    let ghost all = text::texts(v@);
    let mut sum: usize = 0;
    let mut i: usize = 0;
    assert(all.take(0).len() == 0);
    while i < v.len()
        invariant
            i <= v@.len(),
            all == text::texts(v@),
            sum <= MAX_REQUEST_CHARS,
            sum == texts_len(all.take(i as int)),
        decreases v@.len() - i,
    {
        assert(all.take(i + 1).drop_last() =~= all.take(i as int));
        assert(all.take(i + 1).last() == v@[i as int]@);
        let n: usize = characters(v[i].as_str()).len();
        if n >= MAX_REQUEST_CHARS - sum {
            proof {
                lemma_texts_len_grows(all, i as int + 1);
            }
            return false;
        }
        sum = sum + n + 1;
        i += 1;
    }
    assert(all.take(i as int) =~= all);
    true
}

proof fn lemma_texts_len_grows(all: Seq<Seq<char>>, n: int)
    requires
        0 <= n <= all.len(),
    ensures
        texts_len(all.take(n)) <= texts_len(all),
    decreases all.len() - n,
{
    if n < all.len() {
        lemma_texts_len_grows(all, n + 1);
        assert(all.take(n + 1).drop_last() =~= all.take(n));
    } else {
        assert(all.take(n) =~= all);
    }
}

/// A secret to exchange a code with: 43 to 128 letters of the URL-safe base64
/// alphabet.
pub open spec fn is_code_verifier(s: Seq<char>) -> bool {
    43 <= s.len() <= 128 && encoding::is_base64url_text(s)
}

/// The secret of `openidconnect::PkceCodeChallenge::new_random_sha256`. Which one
/// it is, is up to chance; it has 43 letters of the URL-safe base64 alphabet.
#[verifier::external_body]
pub(crate) fn new_code_verifier() -> (r: String)
    ensures
        is_code_verifier(r@),
        r@.len() == 43,
{
    PkceCodeChallenge::new_random_sha256().1.secret().clone()
}

/// The URL at which a login begins: the endpoint, with the client, where it comes
/// back to, the state, the nonce, the scopes, a hint at the user and the challenge
/// that a secret makes. None where the endpoint, or where it comes back to, is no
/// URL.
pub uninterp spec fn authorization_url(
    endpoint: Seq<char>,
    client_id: Seq<char>,
    redirect_url: Seq<char>,
    state: Seq<char>,
    nonce: Seq<char>,
    scopes: Seq<Seq<char>>,
    hint: Option<Seq<char>>,
    verifier: Option<Seq<char>>,
) -> Option<Seq<char>>;

/// `openidconnect::Client::authorize_url` for the authorization code flow, with
/// `add_scopes`, the extra parameter `login_hint`, and the challenge that
/// `PkceCodeChallenge::from_code_verifier_sha256` makes of the secret: the URL
/// depends on the arguments alone. The issuer of the client has no part in it.
/// Beyond four gigabytes the function panics, and so does the challenge for a
/// secret that is too short or too long.
#[verifier::external_body]
fn authorize_url(
    endpoint: String,
    client_id: String,
    redirect_url: String,
    state: String,
    nonce: String,
    scopes: Vec<String>,
    hint: Option<String>,
    verifier: Option<String>,
) -> (r: Option<String>)
    requires
        texts_len(
            request_texts(
                endpoint@,
                client_id@,
                redirect_url@,
                state@,
                nonce@,
                text::texts(scopes@),
                text::opt_text(hint),
            ),
        ) <= MAX_REQUEST_CHARS,
        verifier matches Some(v) ==> is_code_verifier(v@),
    ensures
        text::opt_text(r) == authorization_url(
            endpoint@,
            client_id@,
            redirect_url@,
            state@,
            nonce@,
            text::texts(scopes@),
            text::opt_text(hint),
            text::opt_text(verifier),
        ),
{
    let auth = AuthUrl::new(endpoint).ok()?;
    let issuer = IssuerUrl::from_url(auth.url().clone());
    let client = openidconnect::core::CoreClient::new(
        ClientId::new(client_id), issuer, Default::default()
    ).set_auth_uri(auth).set_redirect_uri(RedirectUrl::new(redirect_url).ok()?);
    let request = client.authorize_url(
        openidconnect::core::CoreAuthenticationFlow::AuthorizationCode,
        || CsrfToken::new(state),
        || Nonce::new(nonce)
    ).add_scopes(scopes.into_iter().map(Scope::new));
    Some(verifier.into_iter().map(PkceCodeVerifier::new).fold(
        hint.into_iter().fold(request, |r, h| r.add_extra_param("login_hint", h)),
        |r, v| r.set_pkce_challenge(PkceCodeChallenge::from_code_verifier_sha256(&v))
    ).url().0.into())
}

/// What the request to a provider is made of.
#[derive(Debug, PartialEq, Eq)]
pub struct AuthRequest {
    /// The scopes to ask for besides `openid`, which is always asked for.
    pub scopes: Vec<String>,
    /// Whom the user is expected to log in as, if anybody.
    pub login_hint: Option<String>,
    /// Whether the code must be exchanged with a secret of its own.
    pub pkce: bool,
}

impl Provider {
    /// What to ask the provider for.
    pub fn auth_request(&self, req: &BeginAuthRequest) -> (r: AuthRequest)
        ensures
            text::texts(r.scopes@) == text::without(self@.scopes, "openid"@),
            text::opt_text(r.login_hint) == hint_of(req@),
            r.pkce == (self@.pkce == "required"@),
    {
        AuthRequest {
            scopes: drop_text(&self.scopes, "openid"),
            login_hint: if req.login_hint.is_empty() {
                None
            } else {
                Some(req.login_hint.clone())
            },
            pkce: same(self.pkce.as_str(), "required"),
        }
    }

    /// Where to send the user, given the URL that was made for the request. A
    /// login without nonce has none in its URL.
    pub fn begin_auth_result(
        &self,
        req: &BeginAuthRequest,
        url: String,
        private_state: Vec<u8>,
    ) -> (r: Result<BeginAuthResult, CoreError>)
        ensures
            error::outcome(r) == begun_at(req@, url@, private_state@),
    {
        let redirect_url = if req.nonce.is_empty() {
            match remove_query_param(url.as_str(), "nonce") {
                Some(shorter) => shorter,
                None => {
                    return Err(invalid("oidc: redirect URL is invalid"));
                },
            }
        } else {
            url
        };
        Ok(BeginAuthResult { redirect_url, private_state })
    }
}

/// What is kept of a login between its two halves.
pub open spec fn private_state(verifier: Option<Seq<char>>) -> Seq<u8> {
    match verifier {
        Some(v) => vstd::utf8::encode_utf8(
            json::object(seq!["\"code_verifier\":"@ + json::quoted(v)]),
        ),
        None => Seq::empty(),
    }
}

/// Whom the user is expected to log in as, if anybody.
pub open spec fn hint_of(req: BeginAuthRequestView) -> Option<Seq<char>> {
    if req.login_hint.len() == 0 {
        None
    } else {
        Some(req.login_hint)
    }
}

/// The error for a login that would come back to no URL.
pub open spec fn bad_redirect(why: Seq<char>) -> CoreErrorView {
    CoreErrorView::InvalidArgument("oidc: redirect URL is invalid: "@ + why)
}

impl ProviderView {
    /// Whether the URL that a login begins at can be written.
    pub open spec fn request_fits(self, req: BeginAuthRequestView, endpoint: Seq<char>) -> bool {
        texts_len(
            request_texts(
                endpoint,
                self.client_id,
                self.redirect_url,
                req.state,
                req.nonce,
                text::without(self.scopes, "openid"@),
                hint_of(req),
            ),
        ) <= MAX_REQUEST_CHARS
    }

    /// What the beginning of a login is answered, with this secret to exchange the
    /// code with.
    pub open spec fn begun(
        self,
        req: BeginAuthRequestView,
        endpoint: Seq<char>,
        verifier: Option<Seq<char>>,
    ) -> Result<BeginAuthResultView, CoreErrorView> {
        match urls::url_parts(self.redirect_url) {
            Err(why) => Err(bad_redirect(why)),
            Ok(_) => match authorization_url(
                endpoint,
                self.client_id,
                self.redirect_url,
                req.state,
                req.nonce,
                text::without(self.scopes, "openid"@),
                hint_of(req),
                verifier,
            ) {
                None => Err(
                    CoreErrorView::InvalidArgument("oidc: authorization endpoint is invalid"@),
                ),
                Some(url) => begun_at(req, url, private_state(verifier)),
            },
        }
    }
}

/// What the beginning of a login is answered, given the URL that was made for the
/// request.
pub open spec fn begun_at(req: BeginAuthRequestView, url: Seq<char>, kept: Seq<u8>) -> Result<
    BeginAuthResultView,
    CoreErrorView,
> {
    match begin_url(req, url) {
        Some(target) => Ok(BeginAuthResultView { redirect_url: target, private_state: kept }),
        None => Err(CoreErrorView::InvalidArgument("oidc: redirect URL is invalid"@)),
    }
}

impl Provider {
    /// Whether the URL that a login begins at can be written.
    pub fn request_fits(&self, req: &BeginAuthRequest, endpoint: &str) -> (r: bool)
        ensures
            r == self@.request_fits(req@, endpoint@),
    {
        let wanted = self.auth_request(req);
        let ghost scopes = text::texts(wanted.scopes@);
        let mut texts: Vec<String> = Vec::new();
        texts.push(endpoint.to_owned());
        texts.push(self.client_id.clone());
        texts.push(self.redirect_url.clone());
        texts.push(req.state.clone());
        texts.push(req.nonce.clone());
        let ghost five = seq![
            endpoint@,
            self@.client_id,
            self@.redirect_url,
            req@.state,
            req@.nonce,
        ];
        assert(text::texts(texts@) =~= five);
        let mut i: usize = 0;
        assert(scopes.take(0) =~= Seq::empty());
        assert(five + scopes.take(0) =~= five);
        while i < wanted.scopes.len()
            invariant
                i <= wanted.scopes@.len(),
                scopes == text::texts(wanted.scopes@),
                text::texts(texts@) == five + scopes.take(i as int),
            decreases wanted.scopes@.len() - i,
        {
            let ghost before = text::texts(texts@);
            texts.push(wanted.scopes[i].clone());
            assert(text::texts(texts@) =~= before.push(scopes[i as int]));
            assert(scopes.take(i + 1) =~= scopes.take(i as int).push(scopes[i as int]));
            assert(before.push(scopes[i as int]) =~= five + scopes.take(i + 1));
            i += 1;
        }
        assert(scopes.take(i as int) =~= scopes);
        if let Some(hint) = wanted.login_hint {
            let ghost before = text::texts(texts@);
            let ghost view = hint@;
            texts.push(hint);
            assert(text::texts(texts@) =~= before.push(view));
        }
        texts_fit(&texts)
    }

    /// Where the login comes back to, unless that is no URL.
    pub fn check_redirect_url(&self) -> (r: Result<(), CoreError>)
        ensures
            match urls::url_parts(self@.redirect_url) {
                Ok(_) => r is Ok,
                Err(why) => r matches Err(e) && e@ == bad_redirect(why),
            },
    {
        match parse_parts(self.redirect_url.as_str()) {
            Ok(_) => Ok(()),
            Err(why) => Err(
                invalid(cat2("oidc: redirect URL is invalid: ", why.as_str()).as_str()),
            ),
        }
    }

    /// Sends the user to the provider, with this secret to exchange the code with
    /// later.
    pub fn begin_auth_with(
        &self,
        req: &BeginAuthRequest,
        endpoint: &str,
        verifier: Option<String>,
    ) -> (r: Result<BeginAuthResult, CoreError>)
        requires
            self@.request_fits(req@, endpoint@),
            verifier matches Some(v) ==> is_code_verifier(v@),
        ensures
            error::outcome(r) == self@.begun(req@, endpoint@, text::opt_text(verifier)),
    {
        if let Err(e) = self.check_redirect_url() {
            return Err(e);
        }
        let wanted = self.auth_request(req);
        let mut kept: Vec<u8> = Vec::new();
        if let Some(v) = &verifier {
            let mut members: Vec<String> = Vec::new();
            members.push(text_member("\"code_verifier\":", v.as_str()));
            assert(text::texts(members@) =~= seq!["\"code_verifier\":"@ + json::quoted(v@)]);
            kept = bytes_of(object_text(&members).as_str());
        }
        assert(kept@ =~= private_state(text::opt_text(verifier)));
        match authorize_url(
            endpoint.to_owned(),
            self.client_id.clone(),
            self.redirect_url.clone(),
            req.state.clone(),
            req.nonce.clone(),
            wanted.scopes,
            wanted.login_hint,
            verifier,
        ) {
            Some(url) => self.begin_auth_result(req, url, kept),
            None => Err(invalid("oidc: authorization endpoint is invalid")),
        }
    }

    /// Sends the user to the provider. Where the code must be exchanged with a
    /// secret of its own, that is drawn here.
    pub fn begin_auth(&self, req: &BeginAuthRequest, endpoint: &str) -> (r: Result<
        BeginAuthResult,
        CoreError,
    >)
        requires
            self@.request_fits(req@, endpoint@),
        ensures
            exists|verifier: Option<Seq<char>>|
                {
                    &&& verifier is Some <==> self@.pkce == "required"@
                    &&& verifier matches Some(v) ==> is_code_verifier(v)
                    &&& error::outcome(r) == #[trigger] self@.begun(req@, endpoint@, verifier)
                },
    {
        let verifier = if same(self.pkce.as_str(), "required") {
            Some(new_code_verifier())
        } else {
            None
        };
        let ghost drawn = text::opt_text(verifier);
        let r = self.begin_auth_with(req, endpoint, verifier);
        assert(error::outcome(r) == self@.begun(req@, endpoint@, drawn));
        r
    }
}

/// The URL to send the user to; none where it cannot be written.
pub open spec fn begin_url(req: BeginAuthRequestView, url: Seq<char>) -> Option<Seq<char>> {
    if req.nonce.len() == 0 {
        urls::without_param(url, "nonce"@)
    } else {
        Some(url)
    }
}

// ---------------------------------------------------------------------------
// Completing a login
// ---------------------------------------------------------------------------

/// The secret to exchange the code with, by what was kept of the login: nothing,
/// or the secret that it holds, or what is wrong with it.
pub open spec fn exchange_secret(
    pkce: Seq<char>,
    kept: Option<Result<Option<Seq<char>>, Seq<char>>>,
) -> Result<Option<Seq<char>>, CoreErrorView> {
    match kept {
        Some(Err(e)) => Err(CoreErrorView::InvalidArgument("oidc: decode private state: "@ + e)),
        Some(Ok(Some(secret))) if secret.len() > 0 => Ok(Some(secret)),
        _ => if pkce == "required"@ {
            Err(CoreErrorView::InvalidArgument("oidc: pkce code_verifier missing"@))
        } else {
            Ok(None)
        },
    }
}

/// The view of what was kept of a login.
pub open spec fn kept_view(kept: Option<Result<Option<String>, String>>) -> Option<
    Result<Option<Seq<char>>, Seq<char>>,
> {
    match kept {
        None => None,
        Some(Err(e)) => Some(Err(e@)),
        Some(Ok(secret)) => Some(Ok(text::opt_text(secret))),
    }
}

/// Whether the nonce of an identity token is the one that was expected; none is
/// expected where it is empty.
pub open spec fn nonce_good(expected: Seq<char>, actual: Option<Seq<char>>) -> bool {
    expected.len() == 0 || actual == Some(expected)
}

/// Whether the nonce of an identity token is the one that was expected.
pub fn nonce_matches(expected: &str, actual: &Option<String>) -> (r: bool)
    ensures
        r == nonce_good(expected@, text::opt_text(*actual)),
{
    if expected.is_empty() {
        return true;
    }
    match actual {
        Some(actual) => same(actual.as_str(), expected),
        None => false,
    }
}

/// Tests the nonce of an identity token.
pub fn check_nonce(expected: &str, actual: Option<String>) -> (r: Result<(), String>)
    ensures
        r is Ok <==> nonce_good(expected@, text::opt_text(actual)),
{
    if nonce_matches(expected, &actual) {
        Ok(())
    } else {
        Err("oidc: id token nonce mismatch".to_owned())
    }
}

/// The nonce in the claims of an identity token.
pub open spec fn nonce_of(claims: Seq<(Seq<char>, ClaimValueView)>) -> Option<Seq<char>> {
    match claims::claim_named(claims, "nonce"@) {
        Some(ClaimValueView::Text(nonce)) => Some(nonce),
        _ => None,
    }
}

/// Whether an identity token carries the nonce that was expected.
pub open spec fn carries_nonce(raw: Seq<char>, expected: Seq<char>) -> bool {
    claims::token_claims(raw) matches Ok(claims) && nonce_good(expected, nonce_of(claims))
}

/// How many letters of a token its signature has, where it is a message
/// authentication code: those of 32, of 48 or of 64 bytes, six bits to a letter.
pub open spec fn mac_letters(alg: Seq<char>) -> Option<nat> {
    if alg == "HS256"@ {
        Some(43)
    } else if alg == "HS384"@ {
        Some(64)
    } else if alg == "HS512"@ {
        Some(86)
    } else {
        None
    }
}

/// Whether the signature of a token is as long as its algorithm has it, where that
/// makes message authentication codes.
pub open spec fn mac_fits_alg(raw: Seq<char>, alg: Option<Seq<char>>) -> bool {
    let parts = text::split_on(raw, '.');
    alg matches Some(alg) ==> mac_letters(alg) matches Some(letters) ==> parts.len() == 3
        && parts[2].len() == letters
}

/// The algorithm that an identity token says it is signed with; none where the
/// token cannot be read or is not signed.
pub uninterp spec fn id_token_alg(raw: Seq<char>) -> Option<Seq<char>>;

/// Whether the signature of a token is as long as its algorithm has it, where that
/// makes message authentication codes.
pub open spec fn mac_fits(raw: Seq<char>) -> bool {
    mac_fits_alg(raw, id_token_alg(raw))
}

/// `openidconnect::IdToken::signing_alg`, of the token that the text is read as:
/// the name of the algorithm depends on the text alone.
#[verifier::external_body]
fn signing_alg(raw: &str) -> (r: Option<String>)
    ensures
        text::opt_text(r) == id_token_alg(raw@),
{
    let token = raw.parse::<openidconnect::core::CoreIdToken>().ok()?;
    let alg = token.signing_alg().ok()?;
    serde_json::to_value(alg).ok()?.as_str().map(|name| name.to_owned())
}

/// Whether the signature of a token is as long as that algorithm has it, where the
/// algorithm makes message authentication codes.
pub fn mac_has_length(raw: &str, alg: &Option<String>) -> (r: bool)
    ensures
        r == mac_fits_alg(raw@, text::opt_text(*alg)),
{
    let alg = match alg {
        Some(alg) => alg.as_str(),
        None => return true,
    };
    let letters: usize = if same(alg, "HS256") {
        43
    } else if same(alg, "HS384") {
        64
    } else if same(alg, "HS512") {
        86
    } else {
        return true;
    };
    let parts = split(raw, '.');
    assert(text::texts(parts@).len() == parts@.len());
    if parts.len() != 3 {
        return false;
    }
    assert(text::texts(parts@)[2] == parts@[2]@);
    characters(parts[2].as_str()).len() == letters
}

/// The last second that the calendar of the verification is asked for.
pub const MAX_CALENDAR_SECONDS: u64 = 900_000_000_000;

/// The issuer and the subject of an identity token that is good at that time for
/// this client, under one of these keys and one of these algorithms, with the
/// nonce that was expected; none where it is not.
pub uninterp spec fn id_token_verified(
    raw: Seq<char>,
    jwks: Seq<char>,
    algs: Seq<char>,
    issuer: Seq<char>,
    client_id: Seq<char>,
    client_secret: Seq<char>,
    nonce: Seq<char>,
    secs: u64,
    nanos: u32,
) -> Option<(Seq<char>, Seq<char>)>;

/// The view of what was verified of a token.
pub open spec fn verified_view(v: Option<(String, String)>) -> Option<(Seq<char>, Seq<char>)> {
    match v {
        Some((issuer, subject)) => Some((issuer@, subject@)),
        None => None,
    }
}

/// Whether whatever was verified of a token comes from that issuer.
pub open spec fn is_from(v: Option<(String, String)>, issuer: Seq<char>) -> bool {
    v matches Some((i, _)) ==> i@ == issuer
}

/// Whether whatever was verified of a token carries the nonce that was expected, if
/// its claims can be read.
pub open spec fn is_expected(
    v: Option<(String, String)>,
    raw: Seq<char>,
    nonce: Seq<char>,
) -> bool {
    v is Some && claims::token_claims(raw) is Ok ==> carries_nonce(raw, nonce)
}

/// `openidconnect::IdToken::claims`, with the verifier that
/// `IdTokenVerifier::new_confidential_client` makes for the keys and that is held
/// to the algorithms and to the time: issuer and subject of the claims depend on
/// the arguments alone, the issuer is the one that was asked for, and the claims, if
/// they can be read as those of any token, hold the nonce that was expected. Keys
/// and algorithms are JSON texts; where one of them, the token or the issuer cannot
/// be read, the token is not good. A message authentication code of another length
/// than its algorithm has panics there, so it is left out.
#[verifier::external_body]
fn verify_id_token(
    raw: &str,
    jwks: &str,
    algs: &str,
    issuer: String,
    client_id: String,
    client_secret: String,
    nonce: &str,
    secs: u64,
    nanos: u32,
) -> (r: Option<(String, String)>)
    requires
        mac_fits(raw@),
        secs <= MAX_CALENDAR_SECONDS,
        nanos < 1_000_000_000,
    ensures
        verified_view(r) == id_token_verified(
            raw@,
            jwks@,
            algs@,
            issuer@,
            client_id@,
            client_secret@,
            nonce@,
            secs,
            nanos,
        ),
        is_from(r, issuer@),
        is_expected(r, raw@, nonce@),
{
    let token = raw.parse::<openidconnect::core::CoreIdToken>().ok()?;
    let time = UNIX_EPOCH + Duration::new(secs, nanos);
    let verifier = openidconnect::core::CoreIdTokenVerifier::new_confidential_client(
        ClientId::new(client_id),
        ClientSecret::new(client_secret),
        IssuerUrl::new(issuer).ok()?,
        serde_json::from_str(jwks).ok()?,
    ).set_time_fn(move || time.into());
    let verifier = verifier.set_allowed_algs(serde_json::from_str::<Vec<_>>(algs).ok()?);
    let claims = token.claims(
        &verifier,
        |actual: Option<&Nonce>| check_nonce(nonce, actual.map(|n| n.secret().clone())),
    ).ok()?;
    Some((claims.issuer().to_string(), claims.subject().to_string()))
}

impl ProviderView {
    /// The name of the claim that stands for one of ours.
    pub open spec fn claim(self, canonical: Seq<char>, fallback: Seq<char>) -> Seq<char> {
        if self.claim_mapping.contains_key(canonical) && text::trimmed(
            self.claim_mapping[canonical],
        ).len() > 0 {
            self.claim_mapping[canonical]
        } else {
            fallback
        }
    }

    /// What the user is recognised by.
    pub open spec fn subject(
        self,
        claims: Seq<(Seq<char>, ClaimValueView)>,
        oidc_subject: Seq<char>,
    ) -> Result<Seq<char>, CoreErrorView> {
        let tid = claims::text_claim(claims, "tid"@);
        let oid = claims::text_claim(claims, "oid"@);
        if self.subject_strategy.len() == 0 || self.subject_strategy == "oidc_sub"@ {
            Ok(oidc_subject)
        } else if self.subject_strategy == "entra_oid_tid"@ {
            if self.required_tenant_id.len() > 0 && tid != self.required_tenant_id {
                Err(CoreErrorView::PermissionDenied)
            } else if tid.len() == 0 || oid.len() == 0 {
                Err(
                    CoreErrorView::InvalidArgument(
                        "oidc: entra_oid_tid requires tid and oid claims"@,
                    ),
                )
            } else {
                Ok(tid + ":"@ + oid)
            }
        } else {
            Err(
                CoreErrorView::InvalidArgument(
                    "oidc: unsupported subject strategy "@ + text::debug_quoted(
                        self.subject_strategy,
                    ),
                ),
            )
        }
    }

    /// Whether a user of that hosted domain is let in.
    pub open spec fn trusts(self, hosted_domain: Seq<char>) -> bool {
        let domain = text::unicode_lower(text::trimmed(hosted_domain));
        if self.profile != "google"@ {
            true
        } else if self.allowed_hosted_domains.len() > 0 {
            self.allowed_hosted_domains.contains(domain)
        } else {
            !(domain.len() == 0 && self.personal_accounts == "deny"@)
        }
    }

    /// The identity that the claims of a verified token make.
    pub open spec fn identity_of(
        self,
        claims: Seq<(Seq<char>, ClaimValueView)>,
        issuer: Seq<char>,
        subject: Seq<char>,
    ) -> ExternalIdentityView {
        ExternalIdentityView {
            provider_id: self.id,
            issuer,
            subject,
            subject_strategy: self.subject_strategy,
            email: claims::text_claim(claims, self.claim("email"@, "email"@)),
            email_verified: claims::yes_claim(
                claims,
                self.claim("email_verified"@, "email_verified"@),
            ),
            display_name: claims::text_claim(claims, self.claim("name"@, "name"@)),
            picture_url: claims::text_claim(claims, self.claim("picture"@, "picture"@)),
            hosted_domain: claims::text_claim(claims, self.claim("hosted_domain"@, "hd"@)),
            ..ExternalIdentity::blank()
        }
    }

    /// What a login with these claims comes to.
    pub open spec fn completed(
        self,
        claims: Seq<(Seq<char>, ClaimValueView)>,
        issuer: Seq<char>,
        oidc_subject: Seq<char>,
    ) -> Result<ExternalIdentityView, CoreErrorView> {
        match self.subject(claims, oidc_subject) {
            Err(e) => Err(e),
            Ok(subject) => {
                let identity = self.identity_of(claims, issuer, subject);
                if self.trusts(identity.hosted_domain) {
                    Ok(identity)
                } else {
                    Err(CoreErrorView::PermissionDenied)
                }
            },
        }
    }
}

impl ProviderView {
    /// What is verified of a token at that time; nothing where a message
    /// authentication code in it has not the length that it should have.
    pub open spec fn verified_at(
        self,
        raw: Seq<char>,
        jwks: Seq<char>,
        algs: Seq<char>,
        nonce: Seq<char>,
        now: Moment,
    ) -> Option<(Seq<char>, Seq<char>)> {
        match now {
            Moment::SinceEpoch(s) => if s.secs <= MAX_CALENDAR_SECONDS && mac_fits(raw) {
                id_token_verified(
                    raw,
                    jwks,
                    algs,
                    self.issuer,
                    self.client_id,
                    self.client_secret,
                    nonce,
                    s.secs,
                    s.nanos,
                )
            } else {
                None
            },
            Moment::BeforeEpoch(_) => None,
        }
    }

    /// What a login with this token comes to, by what was verified of it.
    pub open spec fn completed_token(
        self,
        raw: Seq<char>,
        verified: Option<(Seq<char>, Seq<char>)>,
    ) -> Result<ExternalIdentityView, CoreErrorView> {
        match verified {
            None => Err(CoreErrorView::Unauthenticated),
            Some((issuer, subject)) => match claims::token_claims(raw) {
                Ok(claims) => self.completed(claims, issuer, subject),
                Err(e) => Err(e),
            },
        }
    }
}

impl Provider {
    /// The secret to exchange the code with. `kept` is what was kept of the
    /// login: nothing, or the secret that it holds, or what is wrong with it.
    pub fn token_exchange_verifier(&self, kept: Option<Result<Option<String>, String>>) -> (r:
        Result<Option<String>, CoreError>)
        ensures
            match r {
                Ok(secret) => exchange_secret(self@.pkce, kept_view(kept)) == Ok::<
                    Option<Seq<char>>,
                    CoreErrorView,
                >(text::opt_text(secret)),
                Err(e) => exchange_secret(self@.pkce, kept_view(kept)) == Err::<
                    Option<Seq<char>>,
                    CoreErrorView,
                >(e@),
            },
    {
        match kept {
            Some(Err(e)) => {
                return Err(invalid(cat2("oidc: decode private state: ", e.as_str()).as_str()));
            },
            Some(Ok(Some(secret))) => {
                if !secret.is_empty() {
                    return Ok(Some(secret));
                }
            },
            _ => {},
        }
        if same(self.pkce.as_str(), "required") {
            Err(invalid("oidc: pkce code_verifier missing"))
        } else {
            Ok(None)
        }
    }

    /// The name of the claim that stands for one of ours.
    pub fn claim(&self, canonical: &str, fallback: &str) -> (r: String)
        requires
            self.wf(),
        ensures
            r@ == self@.claim(canonical@, fallback@),
    {
        match self.claim_mapping.get(&canonical.to_owned()) {
            Some(name) => if is_blank(name.as_str()) {
                fallback.to_owned()
            } else {
                name.clone()
            },
            None => fallback.to_owned(),
        }
    }

    /// What the user is recognised by.
    pub fn subject(&self, claims: &Vec<Claim>, oidc_subject: &str) -> (r: Result<
        String,
        CoreError,
    >)
        ensures
            error::outcome(r) == self@.subject(claims::claims_of(claims@), oidc_subject@),
    {
        let strategy = self.subject_strategy.as_str();
        if strategy.is_empty() || same(strategy, "oidc_sub") {
            return Ok(oidc_subject.to_owned());
        }
        if same(strategy, "entra_oid_tid") {
            let tid = string_claim(claims, "tid");
            if !self.required_tenant_id.is_empty() && !same(
                tid.as_str(),
                self.required_tenant_id.as_str(),
            ) {
                return Err(CoreError::PermissionDenied);
            }
            let oid = string_claim(claims, "oid");
            if tid.is_empty() || oid.is_empty() {
                return Err(invalid("oidc: entra_oid_tid requires tid and oid claims"));
            }
            return Ok(cat3(tid.as_str(), ":", oid.as_str()));
        }
        let shown = debug_text(strategy);
        Err(invalid(cat2("oidc: unsupported subject strategy ", shown.as_str()).as_str()))
    }

    /// Lets a user in by the hosted domain.
    pub fn validate_trust(&self, identity: &ExternalIdentity) -> (r: Result<(), CoreError>)
        ensures
            match r {
                Ok(_) => self@.trusts(identity@.hosted_domain),
                Err(e) => !self@.trusts(identity@.hosted_domain) && e@
                    == CoreErrorView::PermissionDenied,
            },
    {
        if !same(self.profile.as_str(), "google") {
            return Ok(());
        }
        let domain = identity.hosted_domain.as_str().trim().to_lowercase();
        if self.allowed_hosted_domains.len() > 0 {
            return if has_member(&self.allowed_hosted_domains, domain.as_str()) {
                Ok(())
            } else {
                Err(CoreError::PermissionDenied)
            };
        }
        if domain.is_empty() && same(self.personal_accounts.as_str(), "deny") {
            return Err(CoreError::PermissionDenied);
        }
        Ok(())
    }

    /// What a login with these claims comes to. Issuer and subject are those of
    /// the verified token.
    pub fn complete_with_claims(&self, claims: &Vec<Claim>, issuer: &str, oidc_subject: &str) -> (r:
        Result<ExternalIdentity, CoreError>)
        requires
            self.wf(),
        ensures
            error::outcome(r) == self@.completed(
                claims::claims_of(claims@),
                issuer@,
                oidc_subject@,
            ),
    {
        let subject = match self.subject(claims, oidc_subject) {
            Ok(subject) => subject,
            Err(e) => {
                return Err(e);
            },
        };
        let mut identity = ExternalIdentity::default();
        identity.provider_id = self.id.clone();
        identity.issuer = issuer.to_owned();
        identity.subject = subject;
        identity.subject_strategy = self.subject_strategy.clone();
        identity.email = string_claim(claims, self.claim("email", "email").as_str());
        identity.email_verified =
        bool_claim(claims, self.claim("email_verified", "email_verified").as_str());
        identity.display_name = string_claim(claims, self.claim("name", "name").as_str());
        identity.picture_url = string_claim(claims, self.claim("picture", "picture").as_str());
        identity.hosted_domain = string_claim(claims, self.claim("hosted_domain", "hd").as_str());
        match self.validate_trust(&identity) {
            Ok(_) => Ok(identity),
            Err(e) => Err(e),
        }
    }

    /// What a login with this token comes to, by the issuer and the subject that
    /// were verified of it, if the token is good.
    pub fn complete_verified(&self, raw_id_token: &str, verified: Option<(String, String)>) -> (r:
        Result<ExternalIdentity, CoreError>)
        requires
            self.wf(),
        ensures
            error::outcome(r) == self@.completed_token(raw_id_token@, verified_view(verified)),
    {
        match verified {
            None => Err(CoreError::Unauthenticated),
            Some((issuer, subject)) => match jwt_claims(raw_id_token) {
                Ok(claims) => self.complete_with_claims(
                    &claims,
                    issuer.as_str(),
                    subject.as_str(),
                ),
                Err(e) => Err(e),
            },
        }
    }

    /// What a login with this token comes to at that time. The keys and the
    /// algorithms are those of the provider, as JSON; `nonce` is the one that the
    /// login began with, and a login that is completed carries it. A time before the
    /// epoch, or beyond the calendar, verifies nothing.
    pub fn complete_auth_at(
        &self,
        raw_id_token: &str,
        jwks: &str,
        algs: &str,
        nonce: &str,
        now: &Moment,
    ) -> (r: Result<ExternalIdentity, CoreError>)
        requires
            self.wf(),
            now.wf(),
        ensures
            error::outcome(r) == self@.completed_token(
                raw_id_token@,
                self@.verified_at(raw_id_token@, jwks@, algs@, nonce@, *now),
            ),
            r matches Ok(identity) ==> identity@.issuer == self@.issuer,
            r is Ok ==> carries_nonce(raw_id_token@, nonce@),
    {
        let mut verified: Option<(String, String)> = None;
        if let Moment::SinceEpoch(s) = now {
            if s.secs <= MAX_CALENDAR_SECONDS && mac_has_length(
                raw_id_token,
                &signing_alg(raw_id_token),
            ) {
                verified =
                verify_id_token(
                    raw_id_token,
                    jwks,
                    algs,
                    self.issuer.clone(),
                    self.client_id.clone(),
                    self.client_secret.clone(),
                    nonce,
                    s.secs,
                    s.nanos,
                );
            }
        }
        self.complete_verified(raw_id_token, verified)
    }

    /// What a login with this token comes to now.
    pub fn complete_auth(&self, raw_id_token: &str, jwks: &str, algs: &str, nonce: &str) -> (r:
        Result<ExternalIdentity, CoreError>)
        requires
            self.wf(),
        ensures
            exists|now: Moment|
                error::outcome(r) == self@.completed_token(
                    raw_id_token@,
                    #[trigger] self@.verified_at(raw_id_token@, jwks@, algs@, nonce@, now),
                ),
            r matches Ok(identity) ==> identity@.issuer == self@.issuer,
            r is Ok ==> carries_nonce(raw_id_token@, nonce@),
    {
        let now = clock();
        self.complete_auth_at(raw_id_token, jwks, algs, nonce, &now)
    }
}

// ---------------------------------------------------------------------------
// Laws
// ---------------------------------------------------------------------------

/// A list of domains has none twice and none that is empty.
pub proof fn law_domain_list_has_no_repeats(values: Seq<Seq<char>>)
    ensures
        domain_list(values).no_duplicates(),
        forall|i: int|
            0 <= i < domain_list(values).len() ==> (#[trigger] domain_list(values)[i]).len() > 0,
    decreases values.len(),
{
    if values.len() > 0 {
        law_domain_list_has_no_repeats(values.drop_last());
    }
}

/// Where hosted domains are named, a Google login without one of them is refused.
pub proof fn law_hosted_domain_is_required(
    p: ProviderView,
    claims: Seq<(Seq<char>, ClaimValueView)>,
    issuer: Seq<char>,
    subject: Seq<char>,
)
    requires
        p.profile == "google"@,
        p.allowed_hosted_domains.len() > 0,
        p.completed(claims, issuer, subject) is Ok,
    ensures
        p.allowed_hosted_domains.contains(
            text::unicode_lower(
                text::trimmed(p.completed(claims, issuer, subject)->Ok_0.hosted_domain),
            ),
        ),
{
}

/// Where a tenant is required, a login of another tenant is refused.
pub proof fn law_tenant_is_required(
    p: ProviderView,
    claims: Seq<(Seq<char>, ClaimValueView)>,
    issuer: Seq<char>,
    subject: Seq<char>,
)
    requires
        p.subject_strategy == "entra_oid_tid"@,
        p.required_tenant_id.len() > 0,
        claims::text_claim(claims, "tid"@) != p.required_tenant_id,
    ensures
        p.completed(claims, issuer, subject) == Err::<ExternalIdentityView, CoreErrorView>(
            CoreErrorView::PermissionDenied,
        ),
{
    reveal_strlit("entra_oid_tid");
    reveal_strlit("oidc_sub");
    assert("entra_oid_tid"@.len() == 13 && "oidc_sub"@.len() == 8);
}

/// A login is completed only with a token that was found to be good; the identity is
/// of the issuer that the token was verified for. Any other login is refused without a
/// word of why.
pub proof fn law_login_needs_a_good_token(
    p: ProviderView,
    raw: Seq<char>,
    verified: Option<(Seq<char>, Seq<char>)>,
)
    ensures
        p.completed_token(raw, None) == Err::<ExternalIdentityView, CoreErrorView>(
            CoreErrorView::Unauthenticated,
        ),
        p.completed_token(raw, verified) matches Ok(identity) ==> {
            &&& verified matches Some((issuer, _)) && identity.issuer == issuer
            &&& identity.provider_id == p.id
        },
{
}

/// The secret that a login began with is the one that its code is exchanged with;
/// where a secret is required, none is not enough.
pub proof fn law_login_keeps_its_secret(pkce: Seq<char>, secret: Seq<char>)
    requires
        is_code_verifier(secret),
    ensures
        exchange_secret(pkce, Some(Ok(Some(secret)))) == Ok::<_, CoreErrorView>(Some(secret)),
        exchange_secret("required"@, None) is Err,
{
}

/// The identity of a completed login says that the address is verified exactly if the
/// claim for it, by the name that the mapping gives it, is the boolean `true` or a text
/// that is `true` but for case and whitespace around it. It says so whatever the other
/// claims are; where the claim is not there or is anything else, the address counts as
/// not verified.
pub proof fn law_address_is_verified_by_its_claim(
    p: ProviderView,
    raw: Seq<char>,
    verified: Option<(Seq<char>, Seq<char>)>,
    claims: Seq<(Seq<char>, ClaimValueView)>,
    name: Seq<char>,
    identity: ExternalIdentityView,
)
    requires
        p.completed_token(raw, verified) == Ok::<_, CoreErrorView>(identity),
        claims::token_claims(raw) == Ok::<_, CoreErrorView>(claims),
        name == if p.claim_mapping.contains_key("email_verified"@) && text::trimmed(
            p.claim_mapping["email_verified"@],
        ).len() > 0 {
            p.claim_mapping["email_verified"@]
        } else {
            "email_verified"@
        },
    ensures
        identity.email_verified <==> exists|i: int|
            {
                &&& 0 <= i < claims.len()
                &&& (#[trigger] claims[i]).0 == name
                &&& forall|j: int| 0 <= j < i ==> (#[trigger] claims[j]).0 != name
                &&& {
                    ||| claims[i].1 == ClaimValueView::Flag(true)
                    ||| claims[i].1 matches ClaimValueView::Text(t) && text::lower(text::trimmed(t))
                        == "true"@
                }
            },
{
    claims::law_claim_is_the_first_of_its_name(claims, name);
    assert(text::lower("true"@) =~= "true"@) by {
        reveal_strlit("true");
    }
}

/// The identity of a completed login is what the token says of it: the texts of the
/// claims for address, name, picture and hosted domain by the names that the mapping
/// gives them, and nothing where such a claim is not there or is no text. It comes from
/// this provider and the issuer of the token, and belongs to no account yet.
pub proof fn law_identity_is_what_the_token_says(
    p: ProviderView,
    raw: Seq<char>,
    issuer: Seq<char>,
    oidc_subject: Seq<char>,
    claims: Seq<(Seq<char>, ClaimValueView)>,
    identity: ExternalIdentityView,
    ours: Seq<char>,
    usual: Seq<char>,
    name: Seq<char>,
    value: Seq<char>,
    i: int,
)
    requires
        p.completed_token(raw, Some((issuer, oidc_subject))) == Ok::<_, CoreErrorView>(identity),
        claims::token_claims(raw) == Ok::<_, CoreErrorView>(claims),
        name == if p.claim_mapping.contains_key(ours) && text::trimmed(p.claim_mapping[ours]).len()
            > 0 {
            p.claim_mapping[ours]
        } else {
            usual
        },
        ours == "email"@ && usual == "email"@ && value == identity.email || ours == "name"@ && usual
            == "name"@ && value == identity.display_name || ours == "picture"@ && usual
            == "picture"@ && value == identity.picture_url || ours == "hosted_domain"@ && usual
            == "hd"@ && value == identity.hosted_domain,
        0 <= i <= claims.len(),
        forall|j: int| 0 <= j < i ==> (#[trigger] claims[j]).0 != name,
        i < claims.len() ==> claims[i].0 == name,
    ensures
        identity.provider_id == p.id,
        identity.issuer == issuer,
        identity.subject_strategy == p.subject_strategy,
        identity.id.len() == 0,
        identity.user_id.len() == 0,
        identity.status.len() == 0,
        i < claims.len() && claims[i].1 is Text ==> claims[i].1 == ClaimValueView::Text(value),
        i == claims.len() || !(claims[i].1 is Text) ==> value.len() == 0,
{
    claims::law_claim_is_the_first_of_its_name(claims, name);
    lemma_mapped_names_differ();
    assert(claims::text_claim(claims, name) == value);
}

proof fn lemma_mapped_names_differ()
    ensures
        "email"@ != "name"@,
        "email"@ != "picture"@,
        "email"@ != "hosted_domain"@,
        "name"@ != "picture"@,
        "name"@ != "hosted_domain"@,
        "picture"@ != "hosted_domain"@,
{
    reveal_strlit("email");
    reveal_strlit("name");
    reveal_strlit("picture");
    reveal_strlit("hosted_domain");
    assert("email"@[0] == 'e');
    assert("name"@[0] == 'n');
    assert("picture"@[0] == 'p');
    assert("hosted_domain"@[0] == 'h');
}

/// Who a login is by: the subject of the token where subjects are told apart as usual,
/// and the tenant and the object of the claims, with a colon between, for Entra. Where
/// a tenant is required, no other is let in.
pub proof fn law_subject_by_strategy(
    p: ProviderView,
    claims: Seq<(Seq<char>, ClaimValueView)>,
    issuer: Seq<char>,
    oidc_subject: Seq<char>,
    identity: ExternalIdentityView,
)
    requires
        p.completed(claims, issuer, oidc_subject) == Ok::<_, CoreErrorView>(identity),
    ensures
        p.subject_strategy.len() == 0 || p.subject_strategy == "oidc_sub"@ || p.subject_strategy
            == "entra_oid_tid"@,
        p.subject_strategy != "entra_oid_tid"@ ==> identity.subject == oidc_subject,
        p.subject_strategy == "entra_oid_tid"@ ==> {
            let tid = claims::claim_named(claims, "tid"@);
            let oid = claims::claim_named(claims, "oid"@);
            &&& tid matches Some(ClaimValueView::Text(t)) && {
                &&& oid matches Some(ClaimValueView::Text(o)) && {
                    &&& t.len() > 0
                    &&& o.len() > 0
                    &&& identity.subject == t + ":"@ + o
                    &&& p.required_tenant_id.len() > 0 ==> t == p.required_tenant_id
                }
            }
        },
{
    reveal_strlit("entra_oid_tid");
    reveal_strlit("oidc_sub");
    assert("entra_oid_tid"@[0] == 'e');
    assert("oidc_sub"@[0] == 'o');
}

/// A login with Entra is not refused for its subject where the token names a tenant and
/// an object and the tenant is the required one, if any is.
pub proof fn law_entra_subject_is_accepted(
    p: ProviderView,
    claims: Seq<(Seq<char>, ClaimValueView)>,
    oidc_subject: Seq<char>,
    tid: Seq<char>,
    oid: Seq<char>,
)
    requires
        p.subject_strategy == "entra_oid_tid"@,
        claims::claim_named(claims, "tid"@) == Some(ClaimValueView::Text(tid)),
        claims::claim_named(claims, "oid"@) == Some(ClaimValueView::Text(oid)),
        tid.len() > 0,
        oid.len() > 0,
        p.required_tenant_id.len() == 0 || p.required_tenant_id == tid,
    ensures
        p.subject(claims, oidc_subject) == Ok::<_, CoreErrorView>(tid + ":"@ + oid),
{
    reveal_strlit("entra_oid_tid");
    reveal_strlit("oidc_sub");
    assert("entra_oid_tid"@[0] == 'e');
    assert("oidc_sub"@[0] == 'o');
}

/// Whom a provider lets in by hosted domain. Only the Google profile asks for one: where
/// domains are listed it must be among them, whatever the case of its letters, and
/// where none is listed only a personal account can be refused, and only where
/// personal accounts are denied.
pub proof fn law_hosted_domain_decides(p: ProviderView, domain: Seq<char>)
    ensures
        p.profile != "google"@ ==> p.trusts(domain),
        p.profile == "google"@ && p.allowed_hosted_domains.len() > 0 ==> (p.trusts(domain)
            <==> p.allowed_hosted_domains.contains(text::unicode_lower(text::trimmed(domain)))),
        p.profile == "google"@ && p.allowed_hosted_domains.len() == 0 && p.personal_accounts
            == "deny"@ ==> (p.trusts(domain) <==> text::unicode_lower(text::trimmed(domain)).len()
            > 0),
        p.profile == "google"@ && p.allowed_hosted_domains.len() == 0 && p.personal_accounts
            != "deny"@ ==> p.trusts(domain),
{
}

/// A provider is what its configuration says: without whitespace around its names, with
/// the scopes that are given or the usual three, telling users apart by `oidc_sub` and
/// binding by no address unless the configuration says otherwise.
pub proof fn law_provider_is_as_configured(c: ConfigView, issuer: Seq<char>)
    ensures
        ({
            let p = provider_of(c, issuer);
            &&& p.id == text::trimmed(c.provider_id)
            &&& p.profile == text::trimmed(c.profile)
            &&& p.issuer == issuer
            &&& p.client_id == text::trimmed(c.client_id)
            &&& p.client_secret == c.client_secret
            &&& p.redirect_url == c.redirect_url
            &&& p.required_tenant_id == text::trimmed(c.required_tenant_id)
            &&& p.pkce == text::trimmed(c.pkce)
            &&& p.personal_accounts == text::trimmed(c.personal_accounts)
            &&& text::trimmed(c.display_name).len() > 0 ==> p.display_name == text::trimmed(
                c.display_name,
            )
            &&& text::trimmed(c.display_name).len() == 0 ==> p.display_name == p.id
            &&& c.scopes.len() > 0 ==> p.scopes == c.scopes
            &&& c.scopes.len() == 0 ==> p.scopes == seq!["openid"@, "email"@, "profile"@]
            &&& text::trimmed(c.subject_strategy).len() > 0 ==> p.subject_strategy == text::trimmed(
                c.subject_strategy,
            )
            &&& text::trimmed(c.subject_strategy).len() == 0 ==> p.subject_strategy == "oidc_sub"@
            &&& text::trimmed(c.email_binding).len() > 0 ==> p.email_binding == text::trimmed(
                c.email_binding,
            )
            &&& text::trimmed(c.email_binding).len() == 0 ==> p.email_binding == "disabled"@
            &&& p.allowed_email_domains == domain_list(c.allowed_email_domains)
            &&& p.allowed_hosted_domains == domain_list(c.allowed_hosted_domains)
            &&& p.claim_mapping == mapping_of(c.claim_mapping)
        }),
{
}

/// A list of domains has exactly the domains that were given, in lower case and without
/// whitespace around them, but no empty ones.
pub proof fn law_domain_list_has_the_domains(values: Seq<Seq<char>>, d: Seq<char>)
    ensures
        domain_list(values).contains(d) <==> d.len() > 0 && exists|i: int|
            0 <= i < values.len() && text::unicode_lower(text::trimmed(#[trigger] values[i])) == d,
    decreases values.len(),
{
    if values.len() > 0 {
        let front = values.drop_last();
        let before = domain_list(front);
        let last = text::unicode_lower(text::trimmed(values.last()));
        law_domain_list_has_the_domains(front, d);
        assert forall|i: int| 0 <= i < front.len() implies front[i] == #[trigger] values[i] by {}
        assert(forall|i: int| 0 <= i < front.len() ==> values[i] == #[trigger] front[i]);
        assert(values.last() == values[values.len() - 1]);
        let longer = before.push(last);
        assert(longer.contains(d) <==> before.contains(d) || d == last) by {
            if longer.contains(d) {
                let i = choose|i: int| 0 <= i < longer.len() && longer[i] == d;
                if i < before.len() {
                    assert(before[i] == d);
                }
            }
            if before.contains(d) {
                let i = choose|i: int| 0 <= i < before.len() && before[i] == d;
                assert(longer[i] == d);
            }
            assert(longer[before.len() as int] == last);
        }
    }
}

/// A claim goes by the name that the last entry for it gives, without whitespace around
/// it, and has no other name where no entry is for it.
pub proof fn law_mapping_is_by_the_last_entry(names: Seq<ClaimNameView>, i: int, ours: Seq<char>)
    requires
        0 <= i <= names.len(),
        i < names.len() ==> text::trimmed(names[i].canonical) == ours,
        forall|j: int|
            i < j < names.len() ==> text::trimmed((#[trigger] names[j]).canonical) != ours,
        i == names.len() ==> forall|j: int|
            0 <= j < names.len() ==> text::trimmed((#[trigger] names[j]).canonical) != ours,
    ensures
        i < names.len() ==> mapping_of(names).contains_key(ours) && mapping_of(names)[ours]
            == text::trimmed(names[i].claim),
        i == names.len() ==> !mapping_of(names).contains_key(ours),
    decreases names.len(),
{
    if names.len() > 0 {
        let front = names.drop_last();
        assert(names.last() == names[names.len() - 1]);
        if i < names.len() - 1 {
            assert(forall|j: int| i < j < front.len() ==> #[trigger] front[j] == names[j]);
            law_mapping_is_by_the_last_entry(front, i, ours);
        } else if i == names.len() {
            assert(forall|j: int| 0 <= j < front.len() ==> #[trigger] front[j] == names[j]);
            law_mapping_is_by_the_last_entry(front, front.len() as int, ours);
        }
    }
}

/// Which configurations are of use: those with a provider, an issuer and a client, and
/// with a rule for personal accounts only under the Google profile, where it is `allow`
/// or `deny`.
pub proof fn law_which_configurations_are_of_use(c: ConfigView)
    ensures
        config_refusal(c) is None <==> {
            &&& text::trimmed(c.provider_id).len() > 0
            &&& text::trimmed(c.issuer).len() > 0
            &&& text::trimmed(c.client_id).len() > 0
            &&& text::trimmed(c.personal_accounts).len() == 0 || (text::trimmed(c.profile)
                == "google"@ && (text::trimmed(c.personal_accounts) == "allow"@ || text::trimmed(
                c.personal_accounts,
            ) == "deny"@))
        },
{
}

/// A provider is set up from all of what its part of the configuration says, and the
/// secret.
pub proof fn law_configuration_is_taken_over(
    id: Seq<char>,
    p: IdentityProviderConfigView,
    secret: Seq<char>,
)
    ensures
        ({
            let c = config_of(id, p, secret);
            &&& c.provider_id == id
            &&& c.client_secret == secret
            &&& c.profile == p.profile
            &&& c.display_name == p.display_name
            &&& c.issuer == p.issuer
            &&& c.client_id == p.client_id
            &&& c.redirect_url == p.redirect_url
            &&& c.scopes == p.scopes
            &&& c.claim_mapping == p.claims
            &&& c.subject_strategy == p.subject.strategy
            &&& c.required_tenant_id == p.subject.required_tid
            &&& c.email_binding == p.trust.email_binding
            &&& c.pkce == p.pkce
            &&& c.allowed_email_domains == p.trust.allowed_email_domains
            &&& c.allowed_hosted_domains == p.trust.hosted_domain.allowed
            &&& c.personal_accounts == p.trust.personal_accounts
        }),
{
}

/// The URL that a login begins at is the one that the provider's endpoint gives for this
/// client, the place to come back to, the state, the nonce and every scope but `openid`,
/// with whom the user is expected to be where that was said. Where no nonce was given it
/// has none. What is kept holds the secret, and nothing where there is no secret.
pub proof fn law_login_begins_where_the_provider_says(
    p: ProviderView,
    req: BeginAuthRequestView,
    endpoint: Seq<char>,
    verifier: Option<Seq<char>>,
    begun: BeginAuthResultView,
)
    requires
        p.begun(req, endpoint, verifier) == Ok::<_, CoreErrorView>(begun),
    ensures
        ({
            let url = authorization_url(
                endpoint,
                p.client_id,
                p.redirect_url,
                req.state,
                req.nonce,
                text::without(p.scopes, "openid"@),
                if req.login_hint.len() > 0 {
                    Some(req.login_hint)
                } else {
                    None
                },
                verifier,
            );
            &&& url is Some
            &&& urls::url_parts(p.redirect_url) is Ok
            &&& req.nonce.len() > 0 ==> begun.redirect_url == url->0
            &&& req.nonce.len() == 0 ==> Some(begun.redirect_url) == urls::without_param(
                url->0,
                "nonce"@,
            )
        }),
        verifier is None ==> begun.private_state.len() == 0,
        verifier matches Some(v) ==> begun.private_state == vstd::utf8::encode_utf8(
            "{"@ + ("\"code_verifier\":"@ + json::quoted(v)) + "}"@,
        ),
{
    if let Some(v) = verifier {
        json::law_small_collections("\"code_verifier\":"@ + json::quoted(v), Seq::empty());
    }
}

/// The code is exchanged with the secret that was kept. Where none was kept, or an empty
/// one, that is an error if one is required, and otherwise no secret is used; what
/// cannot be read is an error in any case.
pub proof fn law_code_is_exchanged_with_what_was_kept(
    pkce: Seq<char>,
    secret: Seq<char>,
    why: Seq<char>,
)
    ensures
        secret.len() > 0 ==> exchange_secret(pkce, Some(Ok(Some(secret)))) == Ok::<
            _,
            CoreErrorView,
        >(Some(secret)),
        exchange_secret(pkce, Some(Err(why))) is Err,
        pkce == "required"@ ==> exchange_secret(pkce, None) is Err && exchange_secret(
            pkce,
            Some(Ok(None)),
        ) is Err && exchange_secret(pkce, Some(Ok(Some(Seq::empty())))) is Err,
        pkce != "required"@ ==> exchange_secret(pkce, None) == Ok::<_, CoreErrorView>(
            None::<Seq<char>>,
        ) && exchange_secret(pkce, Some(Ok(None))) == Ok::<_, CoreErrorView>(None::<Seq<char>>)
            && exchange_secret(pkce, Some(Ok(Some(Seq::empty())))) == Ok::<_, CoreErrorView>(
            None::<Seq<char>>,
        ),
{
}

/// The nonce must be the one that was sent, exactly, and may be anything only where none
/// was sent.
pub proof fn law_nonce_must_be_the_one_sent(expected: Seq<char>, actual: Option<Seq<char>>)
    ensures
        expected.len() == 0 ==> nonce_good(expected, actual),
        expected.len() > 0 ==> (nonce_good(expected, actual) <==> actual == Some(expected)),
{
}

/// How long a message authentication code is in a token: that of 32, 48 or 64 bytes, in
/// letters of six bits each, rounded up. Tokens with other signatures are not asked.
pub proof fn law_length_of_a_code_in_a_token(raw: Seq<char>, alg: Seq<char>)
    ensures
        mac_letters("HS256"@) == Some(((32 * 8 + 5) / 6) as nat),
        mac_letters("HS384"@) == Some(((48 * 8 + 5) / 6) as nat),
        mac_letters("HS512"@) == Some(((64 * 8 + 5) / 6) as nat),
        alg != "HS256"@ && alg != "HS384"@ && alg != "HS512"@ ==> mac_fits_alg(raw, Some(alg)),
        mac_fits_alg(raw, None),
        alg == "HS256"@ || alg == "HS384"@ || alg == "HS512"@ ==> (mac_fits_alg(raw, Some(alg))
            <==> text::split_on(raw, '.').len() == 3 && mac_letters(alg) == Some(
            text::split_on(raw, '.')[2].len(),
        )),
{
    reveal_strlit("HS256");
    reveal_strlit("HS384");
    reveal_strlit("HS512");
    assert("HS256"@[2] == '2');
    assert("HS384"@[2] == '3');
    assert("HS512"@[2] == '5');
}

/// A verified login is completed exactly if its claims can be read, its subject can be
/// told, and its hosted domain is let through; the address, verified or not, is no reason
/// to refuse it.
pub proof fn law_when_a_login_is_completed(
    p: ProviderView,
    raw: Seq<char>,
    issuer: Seq<char>,
    oidc_subject: Seq<char>,
    claims: Seq<(Seq<char>, ClaimValueView)>,
    hosted: Seq<char>,
)
    requires
        claims::token_claims(raw) == Ok::<_, CoreErrorView>(claims),
        hosted == claims::text_claim(
            claims,
            if p.claim_mapping.contains_key("hosted_domain"@) && text::trimmed(
                p.claim_mapping["hosted_domain"@],
            ).len() > 0 {
                p.claim_mapping["hosted_domain"@]
            } else {
                "hd"@
            },
        ),
    ensures
        p.completed_token(raw, Some((issuer, oidc_subject))) is Ok <==> p.subject(
            claims,
            oidc_subject,
        ) is Ok && p.trusts(hosted),
        p.subject(claims, oidc_subject) is Ok && !p.trusts(hosted) ==> p.completed_token(
            raw,
            Some((issuer, oidc_subject)),
        ) == Err::<ExternalIdentityView, _>(CoreErrorView::PermissionDenied),
        p.completed_token(raw, Some((issuer, oidc_subject))) matches Ok(identity) ==> Ok::<
            _,
            CoreErrorView,
        >(identity.subject) == p.subject(claims, oidc_subject) && identity.hosted_domain == hosted,
        p.subject_strategy.len() == 0 || p.subject_strategy == "oidc_sub"@ ==> p.subject(
            claims,
            oidc_subject,
        ) == Ok::<_, CoreErrorView>(oidc_subject),
        p.completed(claims, issuer, oidc_subject) == p.completed_token(
            raw,
            Some((issuer, oidc_subject)),
        ),
{
}

/// A token that cannot be read makes no login.
pub proof fn law_unreadable_token_is_no_login(
    p: ProviderView,
    raw: Seq<char>,
    issuer: Seq<char>,
    subject: Seq<char>,
)
    requires
        claims::token_claims(raw) is Err,
    ensures
        p.completed_token(raw, Some((issuer, subject))) == Err::<ExternalIdentityView, _>(
            claims::token_claims(raw)->Err_0,
        ),
{
}

/// The nonce of a token is its claim `nonce`, where that is a text.
pub proof fn law_nonce_is_a_claim(
    raw: Seq<char>,
    claims: Seq<(Seq<char>, ClaimValueView)>,
    expected: Seq<char>,
)
    requires
        claims::token_claims(raw) == Ok::<_, CoreErrorView>(claims),
        expected.len() > 0,
    ensures
        carries_nonce(raw, expected) <==> claims::claim_named(claims, "nonce"@) == Some(
            ClaimValueView::Text(expected),
        ),
{
}

/// A token is verified by what the provider is: its issuer, its client and its secret,
/// with the nonce that was sent, at the time that it is. Before the epoch nothing is
/// verified.
pub proof fn law_token_is_verified_for_this_provider(
    p: ProviderView,
    raw: Seq<char>,
    jwks: Seq<char>,
    algs: Seq<char>,
    nonce: Seq<char>,
    s: Span,
    why: String,
)
    ensures
        s.secs <= MAX_CALENDAR_SECONDS && mac_fits(raw) ==> p.verified_at(
            raw,
            jwks,
            algs,
            nonce,
            Moment::SinceEpoch(s),
        ) == id_token_verified(
            raw,
            jwks,
            algs,
            p.issuer,
            p.client_id,
            p.client_secret,
            nonce,
            s.secs,
            s.nanos,
        ),
        !mac_fits(raw) ==> p.verified_at(raw, jwks, algs, nonce, Moment::SinceEpoch(s)) is None,
        p.verified_at(raw, jwks, algs, nonce, Moment::BeforeEpoch(why)) is None,
{
}

/// What is said where a configuration is of no use: the first thing that is wrong.
pub proof fn law_what_is_wrong_is_said(c: ConfigView)
    ensures
        text::trimmed(c.provider_id).len() == 0 ==> config_refusal(c) == Some(
            CoreErrorView::InvalidArgument("oidc: provider id is required"@),
        ),
        text::trimmed(c.provider_id).len() > 0 && text::trimmed(c.issuer).len() == 0
            ==> config_refusal(c) == Some(
            CoreErrorView::InvalidArgument("oidc: issuer is required"@),
        ),
        text::trimmed(c.provider_id).len() > 0 && text::trimmed(c.issuer).len() > 0
            && text::trimmed(c.client_id).len() == 0 ==> config_refusal(c) == Some(
            CoreErrorView::InvalidArgument("oidc: client id is required"@),
        ),
{
}

/// A login with Entra that is refused for its subject: the tenant is another than the
/// required one, or a claim is missing. A strategy that is not known tells nobody apart.
pub proof fn law_subject_that_cannot_be_told(
    p: ProviderView,
    claims: Seq<(Seq<char>, ClaimValueView)>,
    oidc_subject: Seq<char>,
)
    ensures
        p.subject_strategy == "entra_oid_tid"@ && p.required_tenant_id.len() > 0
            && claims::text_claim(claims, "tid"@) != p.required_tenant_id ==> p.subject(
            claims,
            oidc_subject,
        ) == Err::<Seq<char>, _>(CoreErrorView::PermissionDenied),
        p.subject_strategy == "entra_oid_tid"@ && p.required_tenant_id.len() == 0 && (
        claims::text_claim(claims, "tid"@).len() == 0 || claims::text_claim(claims, "oid"@).len()
            == 0) ==> p.subject(claims, oidc_subject) == Err::<Seq<char>, _>(
            CoreErrorView::InvalidArgument("oidc: entra_oid_tid requires tid and oid claims"@),
        ),
        p.subject_strategy.len() > 0 && p.subject_strategy != "oidc_sub"@ && p.subject_strategy
            != "entra_oid_tid"@ ==> p.subject(claims, oidc_subject) == Err::<Seq<char>, _>(
            CoreErrorView::InvalidArgument(
                "oidc: unsupported subject strategy "@ + text::debug_quoted(p.subject_strategy),
            ),
        ),
{
    reveal_strlit("entra_oid_tid");
    reveal_strlit("oidc_sub");
    assert("entra_oid_tid"@[0] == 'e');
    assert("oidc_sub"@[0] == 'o');
}

/// A login begins exactly if the place to come back to is a URL and the provider's
/// endpoint gives one, from which the nonce can be left out where none was given.
pub proof fn law_when_a_login_begins(
    p: ProviderView,
    req: BeginAuthRequestView,
    endpoint: Seq<char>,
    verifier: Option<Seq<char>>,
    url: Option<Seq<char>>,
)
    requires
        url == authorization_url(
            endpoint,
            p.client_id,
            p.redirect_url,
            req.state,
            req.nonce,
            text::without(p.scopes, "openid"@),
            if req.login_hint.len() > 0 {
                Some(req.login_hint)
            } else {
                None
            },
            verifier,
        ),
    ensures
        p.begun(req, endpoint, verifier) is Ok <==> {
            &&& urls::url_parts(p.redirect_url) is Ok
            &&& url is Some
            &&& req.nonce.len() > 0 || urls::without_param(url->0, "nonce"@) is Some
        },
{
}

} // verus!
