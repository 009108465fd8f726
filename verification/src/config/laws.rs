//! What holds of every configuration.

use vstd::prelude::*;

use crate::config::defaults;
use crate::config::validate;
use crate::config::{
    ConfigView, IdentityProviderConfigView, NamedProviderView, SecurityConfigView,
};
use crate::email;
use crate::text;
use crate::urls;

verus! {

/// Filling in the defaults twice is the same as doing it once.
pub proof fn law_defaults_are_stable(c: ConfigView)
    ensures
        defaults::defaulted(defaults::defaulted(c)) == defaults::defaulted(c),
{
    let d = defaults::defaulted(c);
    let e = defaults::defaulted(d);
    reveal_strlit("127.0.0.1:8080");
    reveal_strlit("127.0.0.1:8081");
    reveal_strlit("rebac");
    reveal_strlit("ucs-auth://");
    reveal_strlit("oidc_sub");
    reveal_strlit("disabled");
    assert forall|i: int| 0 <= i < d.admin.admin_emails.len() implies email::normalized(
        #[trigger] d.admin.admin_emails[i],
    ) == d.admin.admin_emails[i] by {
        lemma_normalized_is_stable(c.admin.admin_emails[i]);
    }
    assert(e.admin.admin_emails =~= d.admin.admin_emails);
    assert forall|i: int| 0 <= i < d.identity_providers.providers.len() implies (
    #[trigger] e.identity_providers.providers[i]) == d.identity_providers.providers[i] by {
        let p = d.identity_providers.providers[i].provider;
        assert(defaults::usual_scopes().len() == 3);
        assert(defaults::defaulted_provider(p) =~= p);
    }
    assert(e.identity_providers.providers =~= d.identity_providers.providers);
    assert(e.identity_providers =~= d.identity_providers);
    assert(e.server =~= d.server);
    assert(e.lore =~= d.lore);
    assert(e.security =~= d.security);
    assert(e =~= d);
}

/// To normalize an address twice is the same as doing it once.
pub proof fn lemma_normalized_is_stable(address: Seq<char>)
    ensures
        email::normalized(email::normalized(address)) == email::normalized(address),
{
    let t = text::trimmed(address);
    let n = email::normalized(address);
    email::lemma_normalized_is_trimmed(address);
    assert forall|i: int| 0 <= i < n.len() implies text::ascii_lower(#[trigger] n[i]) == n[i] by {
        text::lemma_lower_twice(t[i]);
    }
    assert(text::lower(n) =~= n);
}

/// In a configuration that nothing is wrong with, no administrator is named
/// twice, and each has an address.
pub proof fn law_valid_admins(c: ConfigView, addresses: Seq<Seq<char>>)
    requires
        validate::complaint(c, addresses) is None,
    ensures
        c.admin.admin_emails.no_duplicates(),
        forall|i: int|
            0 <= i < c.admin.admin_emails.len() ==> (#[trigger] c.admin.admin_emails[i]).contains(
                '@',
            ),
{
    lemma_admins(c.admin.admin_emails, 0);
}

proof fn lemma_admins(emails: Seq<Seq<char>>, i: nat)
    requires
        validate::admins_complaint(emails, i) is None,
        i <= emails.len(),
        emails.take(i as int).no_duplicates(),
        forall|j: int| 0 <= j < i ==> (#[trigger] emails[j]).contains('@'),
    ensures
        emails.no_duplicates(),
        forall|j: int| 0 <= j < emails.len() ==> (#[trigger] emails[j]).contains('@'),
    decreases emails.len() - i,
{
    if i < emails.len() {
        let before = emails.take(i as int);
        let after = emails.take(i as int + 1);
        assert(after =~= before.push(emails[i as int]));
        lemma_admins(emails, i + 1);
    } else {
        assert(emails.take(i as int) =~= emails);
    }
}

/// In a configuration that nothing is wrong with, nothing is wrong with any
/// provider, and the default is one of them.
pub proof fn law_valid_providers(c: ConfigView, addresses: Seq<Seq<char>>, i: int)
    requires
        validate::complaint(c, addresses) is None,
        0 <= i < c.identity_providers.providers.len(),
    ensures
        validate::is_provider_id(c.identity_providers.providers[i].id),
        validate::provider_complaint(
            c.identity_providers.providers[i].id,
            c.identity_providers.providers[i].provider,
        ) is None,
        c.identity_providers.default matches Some(d) && validate::is_configured(
            c.identity_providers.providers,
            d,
        ),
{
    lemma_each_provider(c.identity_providers.providers, 0, i);
}

proof fn lemma_each_provider(providers: Seq<NamedProviderView>, from: nat, i: int)
    requires
        validate::each_provider_complaint(providers, from) is None,
        from <= i < providers.len(),
    ensures
        validate::provider_complaint(providers[i].id, providers[i].provider) is None,
    decreases providers.len() - from,
{
    if from < i {
        lemma_each_provider(providers, from + 1, i);
    }
}

/// In a configuration that nothing is wrong with, everything lasts for a while.
pub proof fn law_valid_lifetimes(c: ConfigView, addresses: Seq<Seq<char>>)
    requires
        validate::complaint(c, addresses) is None,
    ensures
        c.jwt.ttl_seconds > 0,
        c.security.device_code_ttl_seconds > 0,
        c.security.device_poll_interval_seconds > 0,
        c.security.session_ttl_seconds > 0,
        c.security.auth_session_ttl_seconds > 0,
{
}

/// What is missing from a configuration is filled in, and what is there is kept. The
/// service listens on this machine, tokens and sessions last an hour, a device code ten
/// minutes with three seconds between questions, access is by relations, and a login
/// session lasts as long as a session. Where no address for logins is given, it is that
/// of the service.
pub proof fn law_defaults_fill_what_is_missing(c: ConfigView)
    ensures
        ({
            let d = defaults::defaulted(c);
            &&& c.server.listen.len() > 0 ==> d.server.listen == c.server.listen
            &&& c.server.listen.len() == 0 ==> d.server.listen == "127.0.0.1:8080"@
            &&& c.server.grpc_listen.len() > 0 ==> d.server.grpc_listen == c.server.grpc_listen
            &&& c.server.grpc_listen.len() == 0 ==> d.server.grpc_listen == "127.0.0.1:8081"@
            &&& d.server.public_base_url == c.server.public_base_url
            &&& d.server.grpc_tls_cert_file == c.server.grpc_tls_cert_file
            &&& d.server.grpc_tls_key_file == c.server.grpc_tls_key_file
            &&& d.database == c.database
            &&& d.jwt.issuer == c.jwt.issuer
            &&& d.jwt.audience == c.jwt.audience
            &&& d.jwt.signing_key_dir == c.jwt.signing_key_dir
            &&& c.jwt.ttl_seconds != 0 ==> d.jwt.ttl_seconds == c.jwt.ttl_seconds
            &&& c.jwt.ttl_seconds == 0 ==> d.jwt.ttl_seconds == 3600
            &&& c.authz.backend.len() > 0 ==> d.authz.backend == c.authz.backend
            &&& c.authz.backend.len() == 0 ==> d.authz.backend == "rebac"@
            &&& c.security.device_code_ttl_seconds != 0 ==> d.security.device_code_ttl_seconds
                == c.security.device_code_ttl_seconds
            &&& c.security.device_code_ttl_seconds == 0 ==> d.security.device_code_ttl_seconds
                == 600
            &&& c.security.device_poll_interval_seconds != 0
                ==> d.security.device_poll_interval_seconds
                == c.security.device_poll_interval_seconds
            &&& c.security.device_poll_interval_seconds == 0
                ==> d.security.device_poll_interval_seconds == 3
            &&& c.security.session_ttl_seconds != 0 ==> d.security.session_ttl_seconds
                == c.security.session_ttl_seconds
            &&& c.security.session_ttl_seconds == 0 ==> d.security.session_ttl_seconds == 3600
            &&& c.security.auth_session_ttl_seconds != 0 ==> d.security.auth_session_ttl_seconds
                == c.security.auth_session_ttl_seconds
            &&& c.security.auth_session_ttl_seconds == 0 ==> d.security.auth_session_ttl_seconds
                == d.security.session_ttl_seconds
            &&& d.security.rebac_allowed_peer_cidrs == c.security.rebac_allowed_peer_cidrs
            &&& d.security.admin_allowed_peer_cidrs == c.security.admin_allowed_peer_cidrs
            &&& d.lore.default_remote_url == c.lore.default_remote_url
            &&& c.lore.auth_url.len() > 0 ==> d.lore.auth_url == c.lore.auth_url
            &&& c.lore.auth_url.len() == 0 && c.server.public_base_url.len() == 0
                ==> d.lore.auth_url.len() == 0
            &&& d.admin.admin_emails.len() == c.admin.admin_emails.len()
            &&& d.identity_providers.default == c.identity_providers.default
            &&& d.identity_providers.providers.len() == c.identity_providers.providers.len()
        }),
{
}

/// The address for logins that is filled in is that of the service with `ucs-auth` for
/// its scheme.
pub proof fn law_login_address_is_that_of_the_service(
    c: ConfigView,
    scheme: Seq<char>,
    rest: Seq<char>,
)
    requires
        c.lore.auth_url.len() == 0,
        c.server.public_base_url == scheme + "://"@ + rest,
        !scheme.contains(':'),
    ensures
        defaults::defaulted(c).lore.auth_url == "ucs-auth://"@ + rest,
{
    let base = c.server.public_base_url;
    reveal_strlit("://");
    text::law_behind_the_first(base, "://"@);
    text::lemma_text_in_text(base, "://"@, scheme, rest);
    let found = text::after_first(base, "://"@)->0;
    let at = base.len() - 3 - found.len();
    assert("://"@.len() == 3);
    assert(text::matches_at(base, "://"@, scheme.len() as int)) by {
        assert(base.subrange(scheme.len() as int, scheme.len() as int + 3) =~= "://"@);
    }
    assert(at == scheme.len()) by {
        if at < scheme.len() {
            assert(base[at] == (base.take(at) + "://"@ + found)[at]);
            assert(base[at] == ':');
            assert(scheme[at] == ':');
        }
    }
    assert(found =~= base.skip(at + 3)) by {
        assert(base =~= base.take(at) + "://"@ + found);
    }
    assert(rest =~= base.skip(at + 3));
}

/// Administrators are compared by their addresses in lower case, and each provider keeps
/// what is said of it, with the usual scopes, told apart by `oidc_sub` and bound by no
/// address where nothing is said.
pub proof fn law_defaults_of_lists(c: ConfigView, i: int)
    ensures
        0 <= i < c.admin.admin_emails.len() ==> defaults::defaulted(c).admin.admin_emails[i]
            == text::lower(text::trimmed(c.admin.admin_emails[i])),
        0 <= i < c.identity_providers.providers.len() ==> {
            let given = c.identity_providers.providers[i];
            let made = defaults::defaulted(c).identity_providers.providers[i];
            let p = given.provider;
            let q = made.provider;
            &&& made.id == given.id
            &&& q.provider_type == p.provider_type
            &&& q.profile == p.profile
            &&& q.display_name == p.display_name
            &&& q.issuer == p.issuer
            &&& q.client_id == p.client_id
            &&& q.client_secret_file == p.client_secret_file
            &&& q.redirect_url == p.redirect_url
            &&& q.claims == p.claims
            &&& q.pkce == p.pkce
            &&& q.subject.required_tid == p.subject.required_tid
            &&& q.trust.allowed_email_domains == p.trust.allowed_email_domains
            &&& q.trust.hosted_domain == p.trust.hosted_domain
            &&& q.trust.personal_accounts == p.trust.personal_accounts
            &&& p.scopes.len() > 0 ==> q.scopes == p.scopes
            &&& p.scopes.len() == 0 ==> q.scopes == seq!["openid"@, "email"@, "profile"@]
            &&& p.subject.strategy.len() > 0 ==> q.subject.strategy == p.subject.strategy
            &&& p.subject.strategy.len() == 0 ==> q.subject.strategy == "oidc_sub"@
            &&& p.trust.email_binding.len() > 0 ==> q.trust.email_binding == p.trust.email_binding
            &&& p.trust.email_binding.len() == 0 ==> q.trust.email_binding == "disabled"@
        },
{
}

/// A URL is accepted exactly if it has a host and one of the schemes.
pub proof fn law_which_urls_are_accepted(
    field: Seq<char>,
    value: Seq<char>,
    schemes: Seq<Seq<char>>,
)
    ensures
        validate::url_complaint(field, value, schemes) is None <==> (urls::url_parts(
            value,
        ) matches Ok((scheme, host, _)) && host is Some && schemes.contains(scheme)),
{
}

/// The part on the service is accepted exactly if there is a database, access is by
/// relations, the public address is a web address, and of the two files for TLS there are
/// both or none.
pub proof fn law_which_servers_are_accepted(c: ConfigView)
    ensures
        validate::server_complaint(c) is None <==> {
            &&& c.database.path.len() > 0
            &&& c.authz.backend == "rebac"@
            &&& c.server.public_base_url.len() > 0
            &&& urls::url_parts(c.server.public_base_url) matches Ok((scheme, host, _)) && host is Some
                && (scheme == "http"@ || scheme == "https"@)
            &&& c.server.grpc_tls_cert_file.len() == 0 <==> c.server.grpc_tls_key_file.len() == 0
        },
{
    lemma_web();
    assert("sql"@ != "rebac"@) by {
        reveal_strlit("sql");
        reveal_strlit("rebac");
        assert("sql"@.len() == 3);
        assert("rebac"@.len() == 5);
    }
}

proof fn lemma_web()
    ensures
        forall|scheme: Seq<char>| #[trigger]
            validate::web().contains(scheme) <==> scheme == "http"@ || scheme == "https"@,
{
    let web = validate::web();
    assert(web[0] == "http"@ && web[1] == "https"@);
}

/// The part on tokens is accepted exactly if the issuer is a web address, there is an
/// audience and none is blank, tokens last, and there is a place for keys.
pub proof fn law_which_tokens_are_accepted(c: ConfigView)
    ensures
        validate::jwt_complaint(c) is None <==> {
            &&& c.jwt.issuer.len() > 0
            &&& urls::url_parts(c.jwt.issuer) matches Ok((scheme, host, _)) && host is Some && (
            scheme == "http"@ || scheme == "https"@)
            &&& c.jwt.audience.len() > 0
            &&& forall|i: int|
                0 <= i < c.jwt.audience.len() ==> text::trimmed(#[trigger] c.jwt.audience[i]).len()
                    > 0
            &&& c.jwt.ttl_seconds > 0
            &&& c.jwt.signing_key_dir.len() > 0
        },
{
    lemma_web();
    lemma_audience(c.jwt.audience, 0);
}

proof fn lemma_audience(audience: Seq<Seq<char>>, n: nat)
    requires
        n <= audience.len(),
    ensures
        validate::audience_complaint(audience, n) is None <==> forall|i: int|
            n <= i < audience.len() ==> text::trimmed(#[trigger] audience[i]).len() > 0,
    decreases audience.len() - n,
{
    if n < audience.len() {
        lemma_audience(audience, n + 1);
        assert(audience[n as int] == audience[n as int]);
    }
}

/// The part on remotes is accepted exactly if the default remote, where there is one, is
/// a `lore` address whose host is one of the audiences in whatever case, and the address
/// for logins, where there is one, is an `https` or `ucs-auth` address.
pub proof fn law_which_remotes_are_accepted(c: ConfigView)
    ensures
        validate::lore_complaint(c) is None <==> {
            &&& c.lore.default_remote_url.len() == 0 || (urls::url_parts(
                c.lore.default_remote_url,
            ) matches Ok((scheme, Some(host), _)) && scheme == "lore"@ && exists|i: int|
                0 <= i < c.jwt.audience.len() && text::lower(#[trigger] c.jwt.audience[i])
                    == text::lower(host))
            &&& c.lore.auth_url.len() == 0 || (urls::url_parts(c.lore.auth_url) matches Ok(
                (scheme, host, _),
            ) && host is Some && (scheme == "https"@ || scheme == "ucs-auth"@))
        },
{
    let remotes = seq!["lore"@];
    let logins = seq!["https"@, "ucs-auth"@];
    assert(remotes[0] == "lore"@);
    assert(logins[0] == "https"@ && logins[1] == "ucs-auth"@);
    assert(forall|s: Seq<char>| #[trigger] remotes.contains(s) <==> s == "lore"@);
    assert(forall|s: Seq<char>| #[trigger]
        logins.contains(s) <==> s == "https"@ || s == "ucs-auth"@);
}

/// The part on security is accepted exactly if everything lasts and every peer is an
/// address or a network.
pub proof fn law_which_lifetimes_and_peers_are_accepted(
    s: SecurityConfigView,
    addresses: Seq<Seq<char>>,
)
    ensures
        validate::security_complaint(s, addresses) is None <==> {
            &&& s.device_code_ttl_seconds > 0
            &&& s.device_poll_interval_seconds > 0
            &&& s.session_ttl_seconds > 0
            &&& s.auth_session_ttl_seconds > 0
            &&& forall|i: int|
                0 <= i < s.rebac_allowed_peer_cidrs.len() ==> {
                    let peer = text::trimmed(#[trigger] s.rebac_allowed_peer_cidrs[i]);
                    &&& peer.len() > 0
                    &&& peer.contains('/') ==> validate::is_network(peer)
                    &&& !peer.contains('/') ==> addresses.contains(peer)
                }
            &&& forall|i: int|
                0 <= i < s.admin_allowed_peer_cidrs.len() ==> {
                    let peer = text::trimmed(#[trigger] s.admin_allowed_peer_cidrs[i]);
                    &&& peer.len() > 0
                    &&& peer.contains('/') ==> validate::is_network(peer)
                    &&& !peer.contains('/') ==> addresses.contains(peer)
                }
        },
{
    lemma_peers(
        "security.rebac_allowed_peer_cidrs"@,
        s.rebac_allowed_peer_cidrs,
        addresses,
        0,
    );
    lemma_peers(
        "security.admin_allowed_peer_cidrs"@,
        s.admin_allowed_peer_cidrs,
        addresses,
        0,
    );
}

proof fn lemma_peers(
    field: Seq<char>,
    peers: Seq<Seq<char>>,
    addresses: Seq<Seq<char>>,
    n: nat,
)
    requires
        n <= peers.len(),
    ensures
        validate::peers_complaint(field, peers, addresses, n) is None <==> forall|i: int|
            n <= i < peers.len() ==> {
                let peer = text::trimmed(#[trigger] peers[i]);
                &&& peer.len() > 0
                &&& peer.contains('/') ==> validate::is_network(peer)
                &&& !peer.contains('/') ==> addresses.contains(peer)
            },
    decreases peers.len() - n,
{
    if n < peers.len() {
        lemma_peers(field, peers, addresses, n + 1);
        assert(peers[n as int] == peers[n as int]);
    }
}

/// The addresses that are asked about are the peers that are no networks, without
/// whitespace around them.
pub proof fn law_bare_peers_are_the_addresses(peers: Seq<Seq<char>>, a: Seq<char>)
    ensures
        validate::bare_peers(peers).contains(a) <==> !a.contains('/') && exists|i: int|
            0 <= i < peers.len() && text::trimmed(#[trigger] peers[i]) == a,
    decreases peers.len(),
{
    if peers.len() > 0 {
        let front = peers.drop_last();
        let before = validate::bare_peers(front);
        let last = text::trimmed(peers.last());
        law_bare_peers_are_the_addresses(front, a);
        assert forall|i: int| 0 <= i < front.len() implies front[i] == #[trigger] peers[i] by {}
        assert(forall|i: int| 0 <= i < front.len() ==> peers[i] == #[trigger] front[i]);
        assert(peers.last() == peers[peers.len() - 1]);
        let longer = before.push(last);
        assert(longer.contains(a) <==> before.contains(a) || a == last) by {
            if longer.contains(a) {
                let i = choose|i: int| 0 <= i < longer.len() && longer[i] == a;
                if i < before.len() {
                    assert(before[i] == a);
                }
            }
            if before.contains(a) {
                let i = choose|i: int| 0 <= i < before.len() && before[i] == a;
                assert(longer[i] == a);
            }
            assert(longer[before.len() as int] == last);
        }
    }
}

/// Administrators are accepted exactly if each has an address that is not blank, has an
/// `@` and is not that of another.
pub proof fn law_which_admins_are_accepted(emails: Seq<Seq<char>>)
    ensures
        validate::admins_complaint(emails, 0) is None <==> {
            &&& forall|i: int|
                0 <= i < emails.len() ==> text::trimmed(#[trigger] emails[i]).len() > 0
                    && emails[i].contains('@')
            &&& emails.no_duplicates()
        },
{
    lemma_admins_exactly(emails, 0);
}

proof fn lemma_admins_exactly(emails: Seq<Seq<char>>, n: nat)
    requires
        n <= emails.len(),
    ensures
        validate::admins_complaint(emails, n) is None <==> {
            &&& forall|i: int|
                n <= i < emails.len() ==> text::trimmed(#[trigger] emails[i]).len() > 0
                    && emails[i].contains('@')
            &&& forall|i: int, j: int|
                0 <= j < i < emails.len() && n <= i ==> #[trigger] emails[i] != #[trigger] emails[j]
        },
    decreases emails.len() - n,
{
    if n < emails.len() {
        lemma_admins_exactly(emails, n + 1);
        let e = emails[n as int];
        let earlier = emails.take(n as int);
        if earlier.contains(e) {
            let j = choose|j: int| 0 <= j < earlier.len() && earlier[j] == e;
            assert(emails[j] == e);
        } else {
            assert forall|j: int| 0 <= j < n implies e != #[trigger] emails[j] by {
                assert(earlier[j] == emails[j]);
            }
        }
    }
}

/// A provider is accepted exactly if all of this holds. Its identifier is up to 63 small
/// letters, digits, `_` and `-`, a letter or digit first. It is of the type `oidc`, with
/// one of three profiles or none. Its issuer and the place to come back to are web
/// addresses, the latter with the path that is the provider's own. It has a client, a
/// secret and the scope `openid`. Users are told apart by `oidc_sub`, or by
/// `entra_oid_tid` with a tenant. It binds by verified address or not at all. A rule for
/// personal accounts is `allow` or `deny` and for Google only, and PKCE is required or
/// left open.
pub proof fn law_which_providers_are_accepted(id: Seq<char>, p: IdentityProviderConfigView)
    ensures
        validate::provider_complaint(id, p) is None <==> {
            &&& 1 <= id.len() <= 63
            &&& 'a' <= id[0] <= 'z' || '0' <= id[0] <= '9'
            &&& forall|i: int|
                0 <= i < id.len() ==> ('a' <= #[trigger] id[i] <= 'z' || '0' <= id[i] <= '9'
                    || id[i] == '_' || id[i] == '-')
            &&& p.provider_type == "oidc"@
            &&& p.profile.len() == 0 || p.profile == "google"@ || p.profile == "keycloak"@
                || p.profile == "entra"@
            &&& p.issuer.len() > 0
            &&& urls::url_parts(p.issuer) matches Ok((scheme, host, _)) && host is Some && (scheme
                == "http"@ || scheme == "https"@)
            &&& p.client_id.len() > 0
            &&& p.client_secret_file.len() > 0
            &&& p.redirect_url.len() > 0
            &&& urls::url_parts(p.redirect_url) matches Ok((scheme, host, path)) && host is Some
                && (scheme == "http"@ || scheme == "https"@) && path == "/auth/"@ + id
                + "/callback"@
            &&& p.scopes.contains("openid"@)
            &&& p.subject.strategy == "oidc_sub"@ || (p.subject.strategy == "entra_oid_tid"@
                && text::trimmed(p.subject.required_tid).len() > 0)
            &&& p.trust.email_binding == "disabled"@ || p.trust.email_binding
                == "verified_email_invitation"@
            &&& text::trimmed(p.trust.personal_accounts).len() == 0 || (p.profile == "google"@ && (
            text::trimmed(p.trust.personal_accounts) == "allow"@ || text::trimmed(
                p.trust.personal_accounts,
            ) == "deny"@))
            &&& p.pkce.len() == 0 || p.pkce == "required"@
        },
{
    lemma_web();
    reveal_strlit("oidc");
    reveal_strlit("oidc_sub");
    reveal_strlit("entra_oid_tid");
    assert("oidc"@.len() == 4);
    assert("oidc_sub"@.len() == 8);
    assert("entra_oid_tid"@.len() == 13);
    assert(validate::is_provider_id(id) <==> {
        &&& 1 <= id.len() <= 63
        &&& 'a' <= id[0] <= 'z' || '0' <= id[0] <= '9'
        &&& forall|i: int|
            0 <= i < id.len() ==> ('a' <= #[trigger] id[i] <= 'z' || '0' <= id[i] <= '9' || id[i]
                == '_' || id[i] == '-')
    }) by {
        assert(forall|i: int| 0 <= i < id.len() ==> validate::is_name_char(#[trigger] id[i]) == (
        'a' <= id[i] <= 'z' || '0' <= id[i] <= '9'));
    }
}

/// The providers are accepted exactly if there are none and none is chosen, or if one of
/// them is chosen and each of them is accepted.
pub proof fn law_one_provider_is_chosen(c: ConfigView)
    ensures
        c.identity_providers.providers.len() == 0 ==> (validate::providers_complaint(c) is None
            <==> (c.identity_providers.default matches Some(d) ==> text::trimmed(d).len() == 0)),
        c.identity_providers.providers.len() > 0 ==> (validate::providers_complaint(c) is None
            <==> {
            &&& c.identity_providers.default matches Some(d) && text::trimmed(d).len() > 0
                && exists|i: int|
                0 <= i < c.identity_providers.providers.len() && (
                #[trigger] c.identity_providers.providers[i]).id == d
            &&& forall|i: int|
                0 <= i < c.identity_providers.providers.len() ==> validate::provider_complaint(
                    (#[trigger] c.identity_providers.providers[i]).id,
                    c.identity_providers.providers[i].provider,
                ) is None
        }),
{
    lemma_each_provider_exactly(c.identity_providers.providers, 0);
}

proof fn lemma_each_provider_exactly(providers: Seq<NamedProviderView>, n: nat)
    requires
        n <= providers.len(),
    ensures
        validate::each_provider_complaint(providers, n) is None <==> forall|i: int|
            n <= i < providers.len() ==> validate::provider_complaint(
                (#[trigger] providers[i]).id,
                providers[i].provider,
            ) is None,
    decreases providers.len() - n,
{
    if n < providers.len() {
        lemma_each_provider_exactly(providers, n + 1);
        assert(providers[n as int] == providers[n as int]);
    }
}

/// A configuration is accepted exactly if each of its parts is, and what is said against
/// it is what is said against the first part that is not.
pub proof fn law_configuration_is_as_good_as_its_parts(
    c: ConfigView,
    addresses: Seq<Seq<char>>,
)
    ensures
        validate::complaint(c, addresses) is None <==> {
            &&& validate::server_complaint(c) is None
            &&& validate::jwt_complaint(c) is None
            &&& validate::lore_complaint(c) is None
            &&& validate::security_complaint(c.security, addresses) is None
            &&& validate::admins_complaint(c.admin.admin_emails, 0) is None
            &&& validate::providers_complaint(c) is None
        },
        validate::server_complaint(c) is Some ==> validate::complaint(c, addresses)
            == validate::server_complaint(c),
        validate::server_complaint(c) is None && validate::jwt_complaint(c) is Some
            ==> validate::complaint(c, addresses) == validate::jwt_complaint(c),
{
}

/// What is said against the part on the service: the first thing that is wrong.
pub proof fn law_what_is_said_of_a_server(c: ConfigView)
    ensures
        c.database.path.len() == 0 ==> validate::server_complaint(c) == Some(
            "database.path is required"@,
        ),
        c.database.path.len() > 0 && c.authz.backend == "sql"@ ==> validate::server_complaint(c)
            == Some(
            "authz.backend sql backend has been removed; remove authz.backend or set it to rebac"@,
        ),
        c.database.path.len() > 0 && c.authz.backend != "sql"@ && c.authz.backend != "rebac"@
            ==> validate::server_complaint(c) == Some(
            "authz.backend "@ + text::debug_quoted(c.authz.backend) + " must be rebac"@,
        ),
        c.database.path.len() > 0 && c.authz.backend == "rebac"@ && c.server.public_base_url.len()
            == 0 ==> validate::server_complaint(c) == Some("server.public_base_url is required"@),
{
    reveal_strlit("sql");
    reveal_strlit("rebac");
    assert("sql"@.len() == 3);
    assert("rebac"@.len() == 5);
}

/// What is said against a URL names its field.
pub proof fn law_what_is_said_of_a_url(field: Seq<char>, value: Seq<char>, schemes: Seq<Seq<char>>)
    ensures
        !(urls::url_parts(value) matches Ok((_, host, _)) && host is Some)
            ==> validate::url_complaint(field, value, schemes) == Some(
            field + " must be an absolute URL"@,
        ),
        (urls::url_parts(value) matches Ok((scheme, host, _)) && host is Some && !schemes.contains(
            scheme,
        )) ==> validate::url_complaint(field, value, schemes) == Some(
            field + " scheme must be one of "@ + text::joined(schemes, ", "@),
        ),
{
}

/// What is said against the part on tokens, on security and on administrators: the first
/// thing that is wrong, and where in a list it is.
pub proof fn law_what_is_said_of_lists_and_lifetimes(
    c: ConfigView,
    s: SecurityConfigView,
    addresses: Seq<Seq<char>>,
    list: Seq<Seq<char>>,
    i: nat,
)
    requires
        i < list.len(),
    ensures
        c.jwt.issuer.len() == 0 ==> validate::jwt_complaint(c) == Some("jwt.issuer is required"@),
        text::trimmed(list[i as int]).len() == 0 ==> validate::audience_complaint(list, i) == Some(
            "jwt.audience["@ + text::decimal(i) + "]"@ + " must not be empty"@,
        ),
        text::trimmed(list[i as int]).len() == 0 ==> validate::admins_complaint(list, i) == Some(
            "admin.admin_emails["@ + text::decimal(i) + "]"@ + " must not be empty"@,
        ),
        text::trimmed(list[i as int]).len() > 0 && !list[i as int].contains('@')
            ==> validate::admins_complaint(list, i) == Some(
            "admin.admin_emails["@ + text::decimal(i) + "]"@ + " must contain @"@,
        ),
        s.device_code_ttl_seconds <= 0 ==> validate::security_complaint(s, addresses) == Some(
            "security.device_code_ttl_seconds must be positive"@,
        ),
        s.device_code_ttl_seconds > 0 && s.device_poll_interval_seconds <= 0
            ==> validate::security_complaint(s, addresses) == Some(
            "security.device_poll_interval_seconds must be positive"@,
        ),
        s.device_code_ttl_seconds > 0 && s.device_poll_interval_seconds > 0
            && s.session_ttl_seconds <= 0 ==> validate::security_complaint(s, addresses) == Some(
            "security.session_ttl_seconds must be positive"@,
        ),
        s.device_code_ttl_seconds > 0 && s.device_poll_interval_seconds > 0
            && s.session_ttl_seconds > 0 && s.auth_session_ttl_seconds <= 0
            ==> validate::security_complaint(s, addresses) == Some(
            "security.auth_session_ttl_seconds must be positive"@,
        ),
{
    reveal_strlit("jwt.audience");
    reveal_strlit("jwt.audience[");
    reveal_strlit("admin.admin_emails");
    reveal_strlit("admin.admin_emails[");
    reveal_strlit("[");
    assert("jwt.audience"@ + "["@ =~= "jwt.audience["@);
    assert("admin.admin_emails"@ + "["@ =~= "admin.admin_emails["@);
}

/// What is said against a provider names it.
pub proof fn law_what_is_said_of_a_provider(
    id: Seq<char>,
    p: IdentityProviderConfigView,
    place: Seq<char>,
)
    requires
        place == "identity_providers.providers["@ + text::debug_quoted(id) + "]"@,
        validate::is_provider_id(id),
    ensures
        p.provider_type.len() == 0 ==> validate::provider_complaint(id, p) == Some(
            place + ".type is required"@,
        ),
        p.provider_type.len() > 0 && p.provider_type != "oidc"@ ==> validate::provider_complaint(
            id,
            p,
        ) == Some(place + ".type "@ + text::debug_quoted(p.provider_type) + " is unknown"@),
        p.provider_type == "oidc"@ && p.profile.len() == 0 && p.issuer.len() == 0
            ==> validate::provider_complaint(id, p) == Some(place + ".issuer is required"@),
        validate::provider_kind_complaint(id, p) is None && validate::provider_reach_complaint(
            id,
            p,
        ) is None && (p.subject.strategy == "email"@ || p.subject.strategy == "upn"@
            || p.subject.strategy == "preferred_username"@) ==> validate::provider_complaint(id, p)
            == Some(
            place + ".subject.strategy "@ + text::debug_quoted(p.subject.strategy)
                + " is not a stable identity key"@,
        ),
        validate::provider_kind_complaint(id, p) is None && validate::provider_reach_complaint(
            id,
            p,
        ) is None && p.subject.strategy == "entra_oid_tid"@ && text::trimmed(
            p.subject.required_tid,
        ).len() == 0 ==> validate::provider_complaint(id, p) == Some(
            place + ".subject.required_tid is required for entra_oid_tid"@,
        ),
{
    reveal_strlit("oidc");
    reveal_strlit("oidc_sub");
    reveal_strlit("entra_oid_tid");
    reveal_strlit("email");
    reveal_strlit("upn");
    reveal_strlit("preferred_username");
    assert("oidc"@.len() == 4);
    assert("oidc_sub"@.len() == 8);
    assert("entra_oid_tid"@.len() == 13);
    assert("email"@.len() == 5);
    assert("upn"@.len() == 3);
    assert("preferred_username"@.len() == 18);
}

} // verus!
