//! What is wrong with a configuration.

use vstd::prelude::*;

use crate::config::{
    Config, ConfigView, IdentityProviderConfig, IdentityProviderConfigView, NamedProvider,
    NamedProviderView, SecurityConfigView,
};
use crate::order;
use crate::text;
use crate::text::{
    cat2, cat3, cat4, characters, debug_text, decimal_text, has_char, has_member, is_blank, join,
    same, same_ignoring_case,
};
use crate::urls;
use crate::urls::{parse_parts, UrlParts};

verus! {

/// Why a configuration cannot be used.
#[derive(Debug, PartialEq, Eq)]
pub enum ConfigError {
    /// What is wrong with it.
    Validate(String),
}

impl View for ConfigError {
    type V = Seq<char>;

    open spec fn view(&self) -> Seq<char> {
        match self {
            ConfigError::Validate(m) => m@,
        }
    }
}

impl ConfigError {
    /// The error as it is shown.
    pub fn message(&self) -> (r: String)
        ensures
            r@ == "config: "@ + self@,
    {
        match self {
            ConfigError::Validate(m) => cat2("config: ", m.as_str()),
        }
    }
}

/// Whether a check says what the specification says: nothing, or the same complaint.
pub open spec fn says(r: Result<(), ConfigError>, complaint: Option<Seq<char>>) -> bool {
    match r {
        Ok(_) => complaint is None,
        Err(e) => complaint == Some(e@),
    }
}

fn validation(message: &str) -> (r: ConfigError)
    ensures
        r@ == message@,
{
    ConfigError::Validate(message.to_owned())
}

// ---------------------------------------------------------------------------
// URLs
// ---------------------------------------------------------------------------

/// What is wrong with a URL that must be absolute and have one of the schemes.
pub open spec fn url_complaint(
    field: Seq<char>,
    value: Seq<char>,
    schemes: Seq<Seq<char>>,
) -> Option<Seq<char>> {
    match urls::url_parts(value) {
        Err(_) => Some(field + " must be an absolute URL"@),
        Ok((scheme, host, _)) => if host is None {
            Some(field + " must be an absolute URL"@)
        } else if schemes.contains(scheme) {
            None
        } else {
            Some(field + " scheme must be one of "@ + text::joined(schemes, ", "@))
        },
    }
}

/// What is wrong with a URL whose parts are known; none of them where it is no URL.
pub fn check_url_parts(field: &str, parts: Option<UrlParts>, schemes: &Vec<String>) -> (r: Result<
    UrlParts,
    ConfigError,
>)
    ensures
        match (r, parts) {
            (Ok(u), Some(p)) => u@ == p@ && p@.1 is Some && text::texts(schemes@).contains(p@.0),
            (Err(e), Some(p)) => if p@.1 is None {
                e@ == field@ + " must be an absolute URL"@
            } else {
                &&& !text::texts(schemes@).contains(p@.0)
                &&& e@ == field@ + " scheme must be one of "@ + text::joined(
                    text::texts(schemes@),
                    ", "@,
                )
            },
            (r, None) => r matches Err(e) && e@ == field@ + " must be an absolute URL"@,
        },
{
    let parts = match parts {
        Some(parts) => parts,
        None => {
            return Err(validation(cat2(field, " must be an absolute URL").as_str()));
        },
    };
    if parts.host.is_none() {
        return Err(validation(cat2(field, " must be an absolute URL").as_str()));
    }
    if has_member(schemes, parts.scheme.as_str()) {
        Ok(parts)
    } else {
        let list = join(schemes, ", ");
        Err(validation(cat3(field, " scheme must be one of ", list.as_str()).as_str()))
    }
}

fn parse_url(field: &str, value: &str, schemes: &Vec<String>) -> (r: Result<UrlParts, ConfigError>)
    ensures
        match r {
            Ok(parts) => {
                &&& url_complaint(field@, value@, text::texts(schemes@)) is None
                &&& urls::url_parts(value@) == Ok::<_, Seq<char>>(parts@)
                &&& parts.host is Some
            },
            Err(e) => url_complaint(field@, value@, text::texts(schemes@)) == Some(e@),
        },
{
    let parsed = match parse_parts(value) {
        Ok(parts) => Some(parts),
        Err(_) => None,
    };
    check_url_parts(field, parsed, schemes)
}

fn one_scheme(a: &str) -> (r: Vec<String>)
    ensures
        text::texts(r@) == seq![a@],
{
    let mut out: Vec<String> = Vec::new();
    out.push(a.to_owned());
    assert(text::texts(out@) =~= seq![a@]);
    out
}

fn two_schemes(a: &str, b: &str) -> (r: Vec<String>)
    ensures
        text::texts(r@) == seq![a@, b@],
{
    let mut out: Vec<String> = Vec::new();
    out.push(a.to_owned());
    out.push(b.to_owned());
    assert(text::texts(out@) =~= seq![a@, b@]);
    out
}

/// The schemes of the web.
pub open spec fn web() -> Seq<Seq<char>> {
    seq!["http"@, "https"@]
}

/// The host of the URL that the bridge is reached by, an IPv6 address without brackets.
pub fn public_host(value: &str) -> (r: Result<String, ConfigError>)
    ensures
        match r {
            Ok(host) => {
                &&& url_complaint("server.public_base_url"@, value@, web()) is None
                &&& urls::url_parts(value@) matches Ok((_, Some(h), _)) && host@ == h
            },
            Err(e) => url_complaint("server.public_base_url"@, value@, web()) == Some(e@),
        },
{
    match parse_url("server.public_base_url", value, &two_schemes("http", "https")) {
        Err(e) => Err(e),
        Ok(parts) => match parts.host {
            Some(host) => Ok(host),
            None => Err(validation("server.public_base_url must include a host")),
        },
    }
}

// ---------------------------------------------------------------------------
// Networks
// ---------------------------------------------------------------------------

/// Whether a string is a network in CIDR notation.
pub uninterp spec fn is_network(value: Seq<char>) -> bool;

/// `ipnet::IpNet::from_str`: whether it takes the string depends on the string alone.
#[verifier::external_body]
fn parses_as_network(value: &str) -> (r: bool)
    ensures
        r == is_network(value@),
{
    value.parse::<ipnet::IpNet>().is_ok()
}

/// What is wrong with a peer that must be a network or one of the addresses.
pub open spec fn peer_complaint(
    field: Seq<char>,
    value: Seq<char>,
    addresses: Seq<Seq<char>>,
) -> Option<Seq<char>> {
    let v = text::trimmed(value);
    if v.len() == 0 {
        Some(field + " must not be empty"@)
    } else if if v.contains('/') {
        is_network(v)
    } else {
        addresses.contains(v)
    } {
        None
    } else {
        Some(field + " must be a valid CIDR or IP address"@)
    }
}

fn validate_cidr_or_ip(field: &str, value: &str, addresses: &Vec<String>) -> (r: Result<
    (),
    String,
>)
    ensures
        match r {
            Ok(_) => peer_complaint(field@, value@, text::texts(addresses@)) is None,
            Err(e) => peer_complaint(field@, value@, text::texts(addresses@)) == Some(e@),
        },
{
    let v = value.trim();
    if v.is_empty() {
        return Err(cat2(field, " must not be empty"));
    }
    let good = if has_char(v, '/') {
        parses_as_network(v)
    } else {
        has_member(addresses, v)
    };
    if good {
        Ok(())
    } else {
        Err(cat2(field, " must be a valid CIDR or IP address"))
    }
}

/// `[i]` behind a field.
pub open spec fn at(field: Seq<char>, i: nat) -> Seq<char> {
    field + "["@ + text::decimal(i) + "]"@
}

fn indexed(field: &str, i: usize) -> (r: String)
    ensures
        r@ == at(field@, i as nat),
{
    let n = decimal_text(i as u64);
    cat4(field, "[", n.as_str(), "]")
}

/// What is wrong with the peers from the `i`th on.
pub open spec fn peers_complaint(
    field: Seq<char>,
    peers: Seq<Seq<char>>,
    addresses: Seq<Seq<char>>,
    i: nat,
) -> Option<Seq<char>>
    decreases peers.len() - i,
{
    if i >= peers.len() {
        None
    } else {
        match peer_complaint(field, peers[i as int], addresses) {
            Some(c) => Some(at(field, i) + ": "@ + c),
            None => peers_complaint(field, peers, addresses, i + 1),
        }
    }
}

fn validate_peers(field: &str, peers: &Vec<String>, addresses: &Vec<String>) -> (r: Result<
    (),
    ConfigError,
>)
    ensures
        says(r, peers_complaint(field@, text::texts(peers@), text::texts(addresses@), 0)),
{
    let ghost all = text::texts(peers@);
    let ghost known = text::texts(addresses@);
    let mut i: usize = 0;
    while i < peers.len()
        invariant
            i <= peers@.len(),
            all == text::texts(peers@),
            known == text::texts(addresses@),
            peers_complaint(field@, all, known, 0) == peers_complaint(field@, all, known, i as nat),
        decreases peers@.len() - i,
    {
        assert(all[i as int] == peers@[i as int]@);
        match validate_cidr_or_ip(field, peers[i].as_str(), addresses) {
            Ok(_) => {},
            Err(e) => {
                let place = indexed(field, i);
                return Err(validation(cat3(place.as_str(), ": ", e.as_str()).as_str()));
            },
        }
        i += 1;
    }
    Ok(())
}

// ---------------------------------------------------------------------------
// Lists of names
// ---------------------------------------------------------------------------

/// What is wrong with the audiences from the `i`th on.
pub open spec fn audience_complaint(audience: Seq<Seq<char>>, i: nat) -> Option<Seq<char>>
    decreases audience.len() - i,
{
    if i >= audience.len() {
        None
    } else if text::trimmed(audience[i as int]).len() == 0 {
        Some(at("jwt.audience"@, i) + " must not be empty"@)
    } else {
        audience_complaint(audience, i + 1)
    }
}

fn validate_audience(audience: &Vec<String>) -> (r: Result<(), ConfigError>)
    ensures
        says(r, audience_complaint(text::texts(audience@), 0)),
{
    let ghost all = text::texts(audience@);
    let mut i: usize = 0;
    while i < audience.len()
        invariant
            i <= audience@.len(),
            all == text::texts(audience@),
            audience_complaint(all, 0) == audience_complaint(all, i as nat),
        decreases audience@.len() - i,
    {
        assert(all[i as int] == audience@[i as int]@);
        if is_blank(audience[i].as_str()) {
            return Err(
                validation(
                    cat2(indexed("jwt.audience", i).as_str(), " must not be empty").as_str(),
                ),
            );
        }
        i += 1;
    }
    Ok(())
}

/// What is wrong with the addresses of administrators from the `i`th on.
pub open spec fn admins_complaint(emails: Seq<Seq<char>>, i: nat) -> Option<Seq<char>>
    decreases emails.len() - i,
{
    if i >= emails.len() {
        None
    } else {
        let email = emails[i as int];
        if text::trimmed(email).len() == 0 {
            Some(at("admin.admin_emails"@, i) + " must not be empty"@)
        } else if !email.contains('@') {
            Some(at("admin.admin_emails"@, i) + " must contain @"@)
        } else if emails.take(i as int).contains(email) {
            Some(at("admin.admin_emails"@, i) + " duplicates an earlier admin email"@)
        } else {
            admins_complaint(emails, i + 1)
        }
    }
}

fn occurs_before(v: &Vec<String>, i: usize) -> (r: bool)
    requires
        i < v@.len(),
    ensures
        r == text::texts(v@).take(i as int).contains(v@[i as int]@),
{
    let ghost before = text::texts(v@).take(i as int);
    let mut j: usize = 0;
    while j < i
        invariant
            j <= i < v@.len(),
            before == text::texts(v@).take(i as int),
            forall|k: int| 0 <= k < j ==> (#[trigger] before[k]) != v@[i as int]@,
        decreases i - j,
    {
        assert(before[j as int] == v@[j as int]@);
        if same(v[j].as_str(), v[i].as_str()) {
            return true;
        }
        j += 1;
    }
    false
}

fn validate_admins(emails: &Vec<String>) -> (r: Result<(), ConfigError>)
    ensures
        says(r, admins_complaint(text::texts(emails@), 0)),
{
    let ghost all = text::texts(emails@);
    let mut i: usize = 0;
    while i < emails.len()
        invariant
            i <= emails@.len(),
            all == text::texts(emails@),
            admins_complaint(all, 0) == admins_complaint(all, i as nat),
        decreases emails@.len() - i,
    {
        assert(all[i as int] == emails@[i as int]@);
        let place = indexed("admin.admin_emails", i);
        if is_blank(emails[i].as_str()) {
            return Err(validation(cat2(place.as_str(), " must not be empty").as_str()));
        }
        if !has_char(emails[i].as_str(), '@') {
            return Err(validation(cat2(place.as_str(), " must contain @").as_str()));
        }
        if occurs_before(emails, i) {
            return Err(
                validation(cat2(place.as_str(), " duplicates an earlier admin email").as_str()),
            );
        }
        i += 1;
    }
    Ok(())
}

// ---------------------------------------------------------------------------
// Identity providers
// ---------------------------------------------------------------------------

/// The letters and digits that a provider's name is made of.
pub open spec fn is_name_char(c: char) -> bool {
    'a' <= c <= 'z' || '0' <= c <= '9'
}

/// Whether a name is safe: up to sixty-three letters and digits in lower case,
/// with hyphens and underscores behind the first.
pub open spec fn is_provider_id(id: Seq<char>) -> bool {
    &&& 1 <= id.len() <= 63
    &&& is_name_char(id[0])
    &&& forall|i: int|
        0 <= i < id.len() ==> (is_name_char(#[trigger] id[i]) || id[i] == '_' || id[i] == '-')
}

/// Whether a name is safe.
pub fn safe_provider_id(id: &str) -> (r: bool)
    ensures
        r == is_provider_id(id@),
{
    let chars = characters(id);
    if chars.len() == 0 || chars.len() > 63 {
        return false;
    }
    let first = chars[0];
    if !(('a' <= first && first <= 'z') || ('0' <= first && first <= '9')) {
        return false;
    }
    let mut i: usize = 0;
    while i < chars.len()
        invariant
            i <= chars@.len(),
            chars@ == id@,
            1 <= chars@.len() <= 63,
            is_name_char(id@[0]),
            forall|j: int|
                0 <= j < i ==> (is_name_char(#[trigger] id@[j]) || id@[j] == '_' || id@[j] == '-'),
        decreases chars@.len() - i,
    {
        let c = chars[i];
        if !(('a' <= c && c <= 'z') || ('0' <= c && c <= '9') || c == '_' || c == '-') {
            assert(!is_name_char(id@[i as int]));
            return false;
        }
        i += 1;
    }
    true
}

/// The place of a provider in the configuration.
pub open spec fn provider_place(id: Seq<char>) -> Seq<char> {
    "identity_providers.providers["@ + text::debug_quoted(id) + "]"@
}

/// The place of a field of a provider that holds a URL.
pub open spec fn provider_field(id: Seq<char>, field: Seq<char>) -> Seq<char> {
    "identity_providers.providers."@ + id + field
}

/// The path that a provider sends users back to.
pub open spec fn callback_path(id: Seq<char>) -> Seq<char> {
    "/auth/"@ + id + "/callback"@
}

/// What is wrong with the kind of a provider.
pub open spec fn provider_kind_complaint(
    id: Seq<char>,
    p: IdentityProviderConfigView,
) -> Option<Seq<char>> {
    let place = provider_place(id);
    if !is_provider_id(id) {
        Some(place + " has an unsafe provider id"@)
    } else if p.provider_type.len() == 0 {
        Some(place + ".type is required"@)
    } else if p.provider_type != "oidc"@ {
        Some(place + ".type "@ + text::debug_quoted(p.provider_type) + " is unknown"@)
    } else if p.profile.len() > 0 && p.profile != "google"@ && p.profile != "keycloak"@ && p.profile
        != "entra"@ {
        Some(place + ".profile "@ + text::debug_quoted(p.profile) + " is unknown"@)
    } else {
        None
    }
}

/// What is wrong with how a provider is reached.
pub open spec fn provider_reach_complaint(
    id: Seq<char>,
    p: IdentityProviderConfigView,
) -> Option<Seq<char>> {
    let place = provider_place(id);
    if p.issuer.len() == 0 {
        Some(place + ".issuer is required"@)
    } else if url_complaint(provider_field(id, ".issuer"@), p.issuer, web()) is Some {
        url_complaint(provider_field(id, ".issuer"@), p.issuer, web())
    } else if p.client_id.len() == 0 {
        Some(place + ".client_id is required"@)
    } else if p.client_secret_file.len() == 0 {
        Some(place + ".client_secret_file is required"@)
    } else if p.redirect_url.len() == 0 {
        Some(place + ".redirect_url is required"@)
    } else if url_complaint(provider_field(id, ".redirect_url"@), p.redirect_url, web()) is Some {
        url_complaint(provider_field(id, ".redirect_url"@), p.redirect_url, web())
    } else if !(urls::url_parts(p.redirect_url) matches Ok((_, _, path)) && path == callback_path(
        id,
    )) {
        Some(place + ".redirect_url path must be "@ + text::debug_quoted(callback_path(id)))
    } else if !p.scopes.contains("openid"@) {
        Some(place + ".scopes must include openid"@)
    } else {
        None
    }
}

/// What is wrong with what a user of a provider is recognised by.
pub open spec fn provider_subject_complaint(
    id: Seq<char>,
    p: IdentityProviderConfigView,
) -> Option<Seq<char>> {
    let place = provider_place(id);
    let strategy = p.subject.strategy;
    if strategy == "oidc_sub"@ {
        None
    } else if strategy == "entra_oid_tid"@ {
        if text::trimmed(p.subject.required_tid).len() == 0 {
            Some(place + ".subject.required_tid is required for entra_oid_tid"@)
        } else {
            None
        }
    } else if strategy == "email"@ || strategy == "upn"@ || strategy == "preferred_username"@ {
        Some(
            place + ".subject.strategy "@ + text::debug_quoted(strategy)
                + " is not a stable identity key"@,
        )
    } else {
        Some(place + ".subject.strategy "@ + text::debug_quoted(strategy) + " is unknown"@)
    }
}

/// What is wrong with what a provider is trusted with.
pub open spec fn provider_trust_complaint(
    id: Seq<char>,
    p: IdentityProviderConfigView,
) -> Option<Seq<char>> {
    let place = provider_place(id);
    let accounts = text::trimmed(p.trust.personal_accounts);
    if p.trust.email_binding != "disabled"@ && p.trust.email_binding
        != "verified_email_invitation"@ {
        Some(
            place + ".trust.email_binding "@ + text::debug_quoted(p.trust.email_binding)
                + " is unknown"@,
        )
    } else if accounts.len() > 0 && accounts != "allow"@ && accounts != "deny"@ {
        Some(place + ".trust.personal_accounts "@ + text::debug_quoted(accounts) + " is unknown"@)
    } else if accounts.len() > 0 && p.profile != "google"@ {
        Some(place + ".trust.personal_accounts is only valid for google profile"@)
    } else if p.pkce.len() > 0 && p.pkce != "required"@ {
        Some(place + ".pkce "@ + text::debug_quoted(p.pkce) + " is unknown"@)
    } else {
        None
    }
}

/// What is wrong with a provider.
pub open spec fn provider_complaint(
    id: Seq<char>,
    p: IdentityProviderConfigView,
) -> Option<Seq<char>> {
    if provider_kind_complaint(id, p) is Some {
        provider_kind_complaint(id, p)
    } else if provider_reach_complaint(id, p) is Some {
        provider_reach_complaint(id, p)
    } else if provider_subject_complaint(id, p) is Some {
        provider_subject_complaint(id, p)
    } else {
        provider_trust_complaint(id, p)
    }
}

fn place_of(id: &str) -> (r: String)
    ensures
        r@ == provider_place(id@),
{
    cat3("identity_providers.providers[", debug_text(id).as_str(), "]")
}

fn complain(place: &str, what: &str) -> (r: Result<(), ConfigError>)
    ensures
        r matches Err(e) && e@ == place@ + what@,
{
    Err(validation(cat2(place, what).as_str()))
}

fn complain_of(place: &str, field: &str, value: &str, what: &str) -> (r: Result<(), ConfigError>)
    ensures
        r matches Err(e) && e@ == place@ + field@ + text::debug_quoted(value@) + what@,
{
    Err(validation(cat4(place, field, debug_text(value).as_str(), what).as_str()))
}

fn validate_provider_kind(id: &str, p: &IdentityProviderConfig) -> (r: Result<(), ConfigError>)
    ensures
        says(r, provider_kind_complaint(id@, p@)),
{
    let place = place_of(id);
    let place = place.as_str();
    if !safe_provider_id(id) {
        return complain(place, " has an unsafe provider id");
    }
    if p.provider_type.is_empty() {
        return complain(place, ".type is required");
    }
    if !same(p.provider_type.as_str(), "oidc") {
        return complain_of(place, ".type ", p.provider_type.as_str(), " is unknown");
    }
    let profile = p.profile.as_str();
    if !profile.is_empty() && !same(profile, "google") && !same(profile, "keycloak") && !same(
        profile,
        "entra",
    ) {
        return complain_of(place, ".profile ", profile, " is unknown");
    }
    Ok(())
}

fn validate_provider_reach(id: &str, p: &IdentityProviderConfig) -> (r: Result<(), ConfigError>)
    ensures
        says(r, provider_reach_complaint(id@, p@)),
{
    let place = place_of(id);
    let place = place.as_str();
    let schemes = two_schemes("http", "https");
    if p.issuer.is_empty() {
        return complain(place, ".issuer is required");
    }
    let field = cat3("identity_providers.providers.", id, ".issuer");
    match parse_url(field.as_str(), p.issuer.as_str(), &schemes) {
        Ok(_) => {},
        Err(e) => {
            return Err(e);
        },
    }
    if p.client_id.is_empty() {
        return complain(place, ".client_id is required");
    }
    if p.client_secret_file.is_empty() {
        return complain(place, ".client_secret_file is required");
    }
    if p.redirect_url.is_empty() {
        return complain(place, ".redirect_url is required");
    }
    let field = cat3("identity_providers.providers.", id, ".redirect_url");
    let redirect = match parse_url(field.as_str(), p.redirect_url.as_str(), &schemes) {
        Ok(parts) => parts,
        Err(e) => {
            return Err(e);
        },
    };
    let expected = cat3("/auth/", id, "/callback");
    if !same(redirect.path.as_str(), expected.as_str()) {
        let shown = debug_text(expected.as_str());
        return Err(
            validation(cat3(place, ".redirect_url path must be ", shown.as_str()).as_str()),
        );
    }
    if !has_member(&p.scopes, "openid") {
        return complain(place, ".scopes must include openid");
    }
    Ok(())
}

fn validate_provider_subject(id: &str, p: &IdentityProviderConfig) -> (r: Result<(), ConfigError>)
    ensures
        says(r, provider_subject_complaint(id@, p@)),
{
    let place = place_of(id);
    let place = place.as_str();
    let strategy = p.subject.strategy.as_str();
    if same(strategy, "oidc_sub") {
        return Ok(());
    }
    if same(strategy, "entra_oid_tid") {
        if is_blank(p.subject.required_tid.as_str()) {
            return complain(place, ".subject.required_tid is required for entra_oid_tid");
        }
        return Ok(());
    }
    if same(strategy, "email") || same(strategy, "upn") || same(strategy, "preferred_username") {
        return complain_of(
            place,
            ".subject.strategy ",
            strategy,
            " is not a stable identity key",
        );
    }
    complain_of(place, ".subject.strategy ", strategy, " is unknown")
}

fn validate_provider_trust(id: &str, p: &IdentityProviderConfig) -> (r: Result<(), ConfigError>)
    ensures
        says(r, provider_trust_complaint(id@, p@)),
{
    let place = place_of(id);
    let place = place.as_str();
    let binding = p.trust.email_binding.as_str();
    if !same(binding, "disabled") && !same(binding, "verified_email_invitation") {
        return complain_of(place, ".trust.email_binding ", binding, " is unknown");
    }
    let accounts = p.trust.personal_accounts.as_str().trim();
    if !accounts.is_empty() && !same(accounts, "allow") && !same(accounts, "deny") {
        return complain_of(place, ".trust.personal_accounts ", accounts, " is unknown");
    }
    if !accounts.is_empty() && !same(p.profile.as_str(), "google") {
        return complain(place, ".trust.personal_accounts is only valid for google profile");
    }
    if !p.pkce.is_empty() && !same(p.pkce.as_str(), "required") {
        return complain_of(place, ".pkce ", p.pkce.as_str(), " is unknown");
    }
    Ok(())
}

/// Says what is wrong with a provider.
pub fn validate_identity_provider(id: &str, p: &IdentityProviderConfig) -> (r: Result<
    (),
    ConfigError,
>)
    ensures
        says(r, provider_complaint(id@, p@)),
{
    match validate_provider_kind(id, p) {
        Ok(_) => {},
        Err(e) => {
            return Err(e);
        },
    }
    match validate_provider_reach(id, p) {
        Ok(_) => {},
        Err(e) => {
            return Err(e);
        },
    }
    match validate_provider_subject(id, p) {
        Ok(_) => {},
        Err(e) => {
            return Err(e);
        },
    }
    validate_provider_trust(id, p)
}

/// Whether a provider is configured under that name.
pub open spec fn is_configured(providers: Seq<NamedProviderView>, id: Seq<char>) -> bool {
    exists|i: int| 0 <= i < providers.len() && (#[trigger] providers[i]).id == id
}

/// What is wrong with the providers from the `i`th on.
pub open spec fn each_provider_complaint(providers: Seq<NamedProviderView>, i: nat) -> Option<
    Seq<char>,
>
    decreases providers.len() - i,
{
    if i >= providers.len() {
        None
    } else {
        match provider_complaint(providers[i as int].id, providers[i as int].provider) {
            Some(c) => Some(c),
            None => each_provider_complaint(providers, i + 1),
        }
    }
}

/// What is wrong with the providers and the choice of the default.
pub open spec fn providers_complaint(c: ConfigView) -> Option<Seq<char>> {
    let providers = c.identity_providers.providers;
    let chosen = match c.identity_providers.default {
        Some(d) => if text::trimmed(d).len() == 0 {
            None
        } else {
            Some(d)
        },
        None => None,
    };
    if providers.len() == 0 {
        if chosen is Some {
            Some("identity_providers.default must reference a configured provider"@)
        } else {
            None
        }
    } else {
        match chosen {
            None => Some(
                "identity_providers.default is required when identity providers are configured"@,
            ),
            Some(d) => if !is_configured(providers, d) {
                Some(
                    "identity_providers.default "@ + text::debug_quoted(d)
                        + " is not configured"@,
                )
            } else {
                each_provider_complaint(providers, 0)
            },
        }
    }
}

fn configured(providers: &Vec<NamedProvider>, id: &str) -> (r: bool)
    ensures
        r == is_configured(order::views(providers@), id@),
{
    let ghost all = order::views(providers@);
    let mut i: usize = 0;
    while i < providers.len()
        invariant
            i <= providers@.len(),
            all == order::views(providers@),
            forall|j: int| 0 <= j < i ==> (#[trigger] all[j]).id != id@,
        decreases providers@.len() - i,
    {
        assert(all[i as int] == providers@[i as int]@);
        if same(providers[i].id.as_str(), id) {
            return true;
        }
        i += 1;
    }
    false
}

impl Config {
    fn validate_identity_providers(&self) -> (r: Result<(), ConfigError>)
        ensures
            says(r, providers_complaint(self@)),
    {
        let chosen = match &self.identity_providers.default {
            Some(d) => if is_blank(d.as_str()) {
                None
            } else {
                Some(d)
            },
            None => None,
        };
        let providers = &self.identity_providers.providers;
        if providers.len() == 0 {
            return if chosen.is_some() {
                Err(validation("identity_providers.default must reference a configured provider"))
            } else {
                Ok(())
            };
        }
        let default = match chosen {
            Some(d) => d,
            None => {
                return Err(
                    validation(
                        "identity_providers.default is required when identity providers are configured",
                    ),
                );
            },
        };
        if !configured(providers, default.as_str()) {
            let shown = debug_text(default.as_str());
            return Err(
                validation(
                    cat3(
                        "identity_providers.default ",
                        shown.as_str(),
                        " is not configured",
                    ).as_str(),
                ),
            );
        }
        let ghost all = order::views(providers@);
        let mut i: usize = 0;
        while i < providers.len()
            invariant
                i <= providers@.len(),
                all == order::views(providers@),
                each_provider_complaint(all, 0) == each_provider_complaint(all, i as nat),
                providers_complaint(self@) == each_provider_complaint(all, 0),
            decreases providers@.len() - i,
        {
            assert(all[i as int] == providers@[i as int]@);
            match validate_identity_provider(providers[i].id.as_str(), &providers[i].provider) {
                Ok(_) => {},
                Err(e) => {
                    return Err(e);
                },
            }
            i += 1;
        }
        Ok(())
    }
}

// ---------------------------------------------------------------------------
// The whole configuration
// ---------------------------------------------------------------------------

/// What is wrong with the database, the backend and the server.
pub open spec fn server_complaint(c: ConfigView) -> Option<Seq<char>> {
    let base = c.server.public_base_url;
    if c.database.path.len() == 0 {
        Some("database.path is required"@)
    } else if c.authz.backend == "sql"@ {
        Some(
            "authz.backend sql backend has been removed; remove authz.backend or set it to rebac"@,
        )
    } else if c.authz.backend != "rebac"@ {
        Some("authz.backend "@ + text::debug_quoted(c.authz.backend) + " must be rebac"@)
    } else if base.len() == 0 {
        Some("server.public_base_url is required"@)
    } else if url_complaint("server.public_base_url"@, base, web()) is Some {
        url_complaint("server.public_base_url"@, base, web())
    } else if c.server.grpc_tls_cert_file.len() == 0 && c.server.grpc_tls_key_file.len() > 0 {
        Some("server.grpc_tls_cert_file is required when server.grpc_tls_key_file is set"@)
    } else if c.server.grpc_tls_cert_file.len() > 0 && c.server.grpc_tls_key_file.len() == 0 {
        Some("server.grpc_tls_key_file is required when server.grpc_tls_cert_file is set"@)
    } else {
        None
    }
}

/// What is wrong with the tokens.
pub open spec fn jwt_complaint(c: ConfigView) -> Option<Seq<char>> {
    if c.jwt.issuer.len() == 0 {
        Some("jwt.issuer is required"@)
    } else if url_complaint("jwt.issuer"@, c.jwt.issuer, web()) is Some {
        url_complaint("jwt.issuer"@, c.jwt.issuer, web())
    } else if c.jwt.audience.len() == 0 {
        Some("jwt.audience must not be empty"@)
    } else if audience_complaint(c.jwt.audience, 0) is Some {
        audience_complaint(c.jwt.audience, 0)
    } else if c.jwt.ttl_seconds <= 0 {
        Some("jwt.ttl_seconds must be positive"@)
    } else if c.jwt.signing_key_dir.len() == 0 {
        Some("jwt.signing_key_dir is required"@)
    } else {
        None
    }
}

/// Whether one of the audiences is the host.
pub open spec fn has_audience(audience: Seq<Seq<char>>, host: Seq<char>) -> bool {
    exists|i: int|
        0 <= i < audience.len() && text::lower(#[trigger] audience[i]) == text::lower(host)
}

/// What is wrong with the server that tokens are issued for.
pub open spec fn lore_complaint(c: ConfigView) -> Option<Seq<char>> {
    let remote = c.lore.default_remote_url;
    let remote_complaint = if remote.len() == 0 {
        None
    } else {
        match url_complaint("lore.default_remote_url"@, remote, seq!["lore"@]) {
            Some(complaint) => Some(complaint),
            None => match urls::url_parts(remote) {
                Ok((_, Some(host), _)) => if has_audience(c.jwt.audience, host) {
                    None
                } else {
                    Some(
                        "jwt.audience must include lore.default_remote_url host "@
                            + text::debug_quoted(host),
                    )
                },
                _ => Some("lore.default_remote_url must include a host"@),
            },
        }
    };
    if remote_complaint is Some {
        remote_complaint
    } else if c.lore.auth_url.len() > 0 {
        url_complaint("lore.auth_url"@, c.lore.auth_url, seq!["https"@, "ucs-auth"@])
    } else {
        None
    }
}

/// What is wrong with how long things last and who may connect.
pub open spec fn security_complaint(s: SecurityConfigView, addresses: Seq<Seq<char>>) -> Option<
    Seq<char>,
> {
    if s.device_code_ttl_seconds <= 0 {
        Some("security.device_code_ttl_seconds must be positive"@)
    } else if s.device_poll_interval_seconds <= 0 {
        Some("security.device_poll_interval_seconds must be positive"@)
    } else if s.session_ttl_seconds <= 0 {
        Some("security.session_ttl_seconds must be positive"@)
    } else if s.auth_session_ttl_seconds <= 0 {
        Some("security.auth_session_ttl_seconds must be positive"@)
    } else {
        match peers_complaint(
            "security.rebac_allowed_peer_cidrs"@,
            s.rebac_allowed_peer_cidrs,
            addresses,
            0,
        ) {
            Some(complaint) => Some(complaint),
            None => peers_complaint(
                "security.admin_allowed_peer_cidrs"@,
                s.admin_allowed_peer_cidrs,
                addresses,
                0,
            ),
        }
    }
}

/// The first thing that is wrong with a configuration. Of the peers without a
/// prefix length, `addresses` are those that are IP addresses.
pub open spec fn complaint(c: ConfigView, addresses: Seq<Seq<char>>) -> Option<Seq<char>> {
    if server_complaint(c) is Some {
        server_complaint(c)
    } else if jwt_complaint(c) is Some {
        jwt_complaint(c)
    } else if lore_complaint(c) is Some {
        lore_complaint(c)
    } else if security_complaint(c.security, addresses) is Some {
        security_complaint(c.security, addresses)
    } else if admins_complaint(c.admin.admin_emails, 0) is Some {
        admins_complaint(c.admin.admin_emails, 0)
    } else {
        providers_complaint(c)
    }
}

fn audience_includes(audience: &Vec<String>, host: &str) -> (r: bool)
    ensures
        r == has_audience(text::texts(audience@), host@),
{
    let ghost all = text::texts(audience@);
    let mut i: usize = 0;
    while i < audience.len()
        invariant
            i <= audience@.len(),
            all == text::texts(audience@),
            forall|j: int| 0 <= j < i ==> text::lower(#[trigger] all[j]) != text::lower(host@),
        decreases audience@.len() - i,
    {
        assert(all[i as int] == audience@[i as int]@);
        if same_ignoring_case(audience[i].as_str(), host) {
            return true;
        }
        i += 1;
    }
    false
}

impl Config {
    fn validate_server(&self) -> (r: Result<(), ConfigError>)
        ensures
            says(r, server_complaint(self@)),
    {
        if self.database.path.is_empty() {
            return Err(validation("database.path is required"));
        }
        let backend = self.authz.backend.as_str();
        if same(backend, "sql") {
            return Err(
                validation(
                    "authz.backend sql backend has been removed; remove authz.backend or set it to rebac",
                ),
            );
        }
        if !same(backend, "rebac") {
            let shown = debug_text(backend);
            return Err(
                validation(cat3("authz.backend ", shown.as_str(), " must be rebac").as_str()),
            );
        }
        let base = self.server.public_base_url.as_str();
        if base.is_empty() {
            return Err(validation("server.public_base_url is required"));
        }
        match parse_url("server.public_base_url", base, &two_schemes("http", "https")) {
            Ok(_) => {},
            Err(e) => {
                return Err(e);
            },
        }
        let no_cert = self.server.grpc_tls_cert_file.is_empty();
        let no_key = self.server.grpc_tls_key_file.is_empty();
        if no_cert && !no_key {
            return Err(
                validation(
                    "server.grpc_tls_cert_file is required when server.grpc_tls_key_file is set",
                ),
            );
        }
        if !no_cert && no_key {
            return Err(
                validation(
                    "server.grpc_tls_key_file is required when server.grpc_tls_cert_file is set",
                ),
            );
        }
        Ok(())
    }

    fn validate_jwt(&self) -> (r: Result<(), ConfigError>)
        ensures
            says(r, jwt_complaint(self@)),
    {
        if self.jwt.issuer.is_empty() {
            return Err(validation("jwt.issuer is required"));
        }
        match parse_url("jwt.issuer", self.jwt.issuer.as_str(), &two_schemes("http", "https")) {
            Ok(_) => {},
            Err(e) => {
                return Err(e);
            },
        }
        if self.jwt.audience.len() == 0 {
            return Err(validation("jwt.audience must not be empty"));
        }
        match validate_audience(&self.jwt.audience) {
            Ok(_) => {},
            Err(e) => {
                return Err(e);
            },
        }
        if self.jwt.ttl_seconds <= 0 {
            return Err(validation("jwt.ttl_seconds must be positive"));
        }
        if self.jwt.signing_key_dir.is_empty() {
            return Err(validation("jwt.signing_key_dir is required"));
        }
        Ok(())
    }

    fn validate_lore(&self) -> (r: Result<(), ConfigError>)
        ensures
            says(r, lore_complaint(self@)),
    {
        let remote = self.lore.default_remote_url.as_str();
        if !remote.is_empty() {
            let parts = match parse_url("lore.default_remote_url", remote, &one_scheme("lore")) {
                Ok(parts) => parts,
                Err(e) => {
                    return Err(e);
                },
            };
            let host = match parts.host {
                Some(host) => host,
                None => {
                    return Err(validation("lore.default_remote_url must include a host"));
                },
            };
            if !audience_includes(&self.jwt.audience, host.as_str()) {
                let shown = debug_text(host.as_str());
                return Err(
                    validation(
                        cat2(
                            "jwt.audience must include lore.default_remote_url host ",
                            shown.as_str(),
                        ).as_str(),
                    ),
                );
            }
        }
        if !self.lore.auth_url.is_empty() {
            match parse_url(
                "lore.auth_url",
                self.lore.auth_url.as_str(),
                &two_schemes("https", "ucs-auth"),
            ) {
                Ok(_) => {},
                Err(e) => {
                    return Err(e);
                },
            }
        }
        Ok(())
    }

    fn validate_security(&self, addresses: &Vec<String>) -> (r: Result<(), ConfigError>)
        ensures
            says(r, security_complaint(self@.security, text::texts(addresses@))),
    {
        if self.security.device_code_ttl_seconds <= 0 {
            return Err(validation("security.device_code_ttl_seconds must be positive"));
        }
        if self.security.device_poll_interval_seconds <= 0 {
            return Err(validation("security.device_poll_interval_seconds must be positive"));
        }
        if self.security.session_ttl_seconds <= 0 {
            return Err(validation("security.session_ttl_seconds must be positive"));
        }
        if self.security.auth_session_ttl_seconds <= 0 {
            return Err(validation("security.auth_session_ttl_seconds must be positive"));
        }
        match validate_peers(
            "security.rebac_allowed_peer_cidrs",
            &self.security.rebac_allowed_peer_cidrs,
            addresses,
        ) {
            Ok(_) => {},
            Err(e) => {
                return Err(e);
            },
        }
        validate_peers(
            "security.admin_allowed_peer_cidrs",
            &self.security.admin_allowed_peer_cidrs,
            addresses,
        )
    }

    /// Says what is wrong with the configuration, if anything is. Of the peers
    /// without a prefix length, `addresses` are those that are IP addresses.
    pub fn validate(&self, addresses: &Vec<String>) -> (r: Result<(), ConfigError>)
        ensures
            says(r, complaint(self@, text::texts(addresses@))),
    {
        match self.validate_server() {
            Ok(_) => {},
            Err(e) => {
                return Err(e);
            },
        }
        match self.validate_jwt() {
            Ok(_) => {},
            Err(e) => {
                return Err(e);
            },
        }
        match self.validate_lore() {
            Ok(_) => {},
            Err(e) => {
                return Err(e);
            },
        }
        match self.validate_security(addresses) {
            Ok(_) => {},
            Err(e) => {
                return Err(e);
            },
        }
        match validate_admins(&self.admin.admin_emails) {
            Ok(_) => {},
            Err(e) => {
                return Err(e);
            },
        }
        self.validate_identity_providers()
    }

    /// The peers that have no prefix length, which must be IP addresses.
    pub fn peers_without_prefix(&self) -> (r: Vec<String>)
        ensures
            text::texts(r@) == bare_peers(self@.security.rebac_allowed_peer_cidrs) + bare_peers(
                self@.security.admin_allowed_peer_cidrs,
            ),
    {
        let mut out = without_prefix_length(&self.security.rebac_allowed_peer_cidrs);
        let mut more = without_prefix_length(&self.security.admin_allowed_peer_cidrs);
        let ghost a = text::texts(out@);
        let ghost b = text::texts(more@);
        out.append(&mut more);
        assert(text::texts(out@) =~= a + b);
        out
    }
}

/// The peers that have no prefix length, without the whitespace around them.
pub open spec fn bare_peers(peers: Seq<Seq<char>>) -> Seq<Seq<char>>
    decreases peers.len(),
{
    if peers.len() == 0 {
        Seq::empty()
    } else {
        let before = bare_peers(peers.drop_last());
        let last = text::trimmed(peers.last());
        if last.contains('/') {
            before
        } else {
            before.push(last)
        }
    }
}

fn without_prefix_length(peers: &Vec<String>) -> (r: Vec<String>)
    ensures
        text::texts(r@) == bare_peers(text::texts(peers@)),
{
    let ghost all = text::texts(peers@);
    let mut out: Vec<String> = Vec::new();
    let mut i: usize = 0;
    assert(text::texts(out@) =~= bare_peers(all.take(0)));
    while i < peers.len()
        invariant
            i <= peers@.len(),
            all == text::texts(peers@),
            text::texts(out@) == bare_peers(all.take(i as int)),
        decreases peers@.len() - i,
    {
        let ghost before = text::texts(out@);
        assert(all.take(i + 1).drop_last() =~= all.take(i as int));
        assert(all.take(i + 1).last() == peers@[i as int]@);
        let peer = peers[i].as_str().trim();
        if !has_char(peer, '/') {
            out.push(peer.to_owned());
            assert(text::texts(out@) =~= before.push(peer@));
        }
        i += 1;
    }
    assert(all.take(i as int) =~= all);
    out
}

} // verus!
