//! What holds where the configuration says nothing.

use vstd::prelude::*;

use crate::config::{
    AdminConfigView, AuthzConfigView, Config, ConfigView, IdentityProviderConfigView,
    IdentityProvidersConfigView, JwtConfigView, LoreConfigView, NamedProvider, NamedProviderView,
    SecurityConfigView, ServerConfigView, SubjectConfigView, TrustConfigView,
};
use crate::email;
use crate::email::normalize_email;
use crate::order;
use crate::text;
use crate::text::{behind_first, cat2};

verus! {

/// `value`, or `default` where it is empty.
pub open spec fn text_or(value: Seq<char>, default: Seq<char>) -> Seq<char> {
    if value.len() == 0 {
        default
    } else {
        value
    }
}

/// `value`, or `default` where it is zero.
pub open spec fn number_or(value: i64, default: i64) -> i64 {
    if value == 0 {
        default
    } else {
        value
    }
}

/// What stands behind `://`, or everything where there is none.
pub open spec fn schemeless(value: Seq<char>) -> Seq<char> {
    match text::after_first(value, "://"@) {
        Some(rest) => rest,
        None => value,
    }
}

/// The scopes that are asked for unless others are configured.
pub open spec fn usual_scopes() -> Seq<Seq<char>> {
    seq!["openid"@, "email"@, "profile"@]
}

/// A provider with its defaults.
pub open spec fn defaulted_provider(p: IdentityProviderConfigView) -> IdentityProviderConfigView {
    IdentityProviderConfigView {
        scopes: if p.scopes.len() == 0 {
            usual_scopes()
        } else {
            p.scopes
        },
        subject: SubjectConfigView { strategy: text_or(p.subject.strategy, "oidc_sub"@), ..p.subject },
        trust: TrustConfigView {
            email_binding: text_or(p.trust.email_binding, "disabled"@),
            ..p.trust
        },
        ..p
    }
}

/// A configuration with its defaults.
pub open spec fn defaulted(c: ConfigView) -> ConfigView {
    let session_ttl = number_or(c.security.session_ttl_seconds, 3600);
    ConfigView {
        server: ServerConfigView {
            listen: text_or(c.server.listen, "127.0.0.1:8080"@),
            grpc_listen: text_or(c.server.grpc_listen, "127.0.0.1:8081"@),
            ..c.server
        },
        jwt: JwtConfigView { ttl_seconds: number_or(c.jwt.ttl_seconds, 3600), ..c.jwt },
        authz: AuthzConfigView { backend: text_or(c.authz.backend, "rebac"@) },
        security: SecurityConfigView {
            device_code_ttl_seconds: number_or(c.security.device_code_ttl_seconds, 600),
            device_poll_interval_seconds: number_or(c.security.device_poll_interval_seconds, 3),
            session_ttl_seconds: session_ttl,
            auth_session_ttl_seconds: number_or(c.security.auth_session_ttl_seconds, session_ttl),
            ..c.security
        },
        lore: LoreConfigView {
            auth_url: if c.lore.auth_url.len() == 0 && c.server.public_base_url.len() > 0 {
                "ucs-auth://"@ + schemeless(c.server.public_base_url)
            } else {
                c.lore.auth_url
            },
            ..c.lore
        },
        admin: AdminConfigView {
            admin_emails: Seq::new(
                c.admin.admin_emails.len(),
                |i: int| email::normalized(c.admin.admin_emails[i]),
            ),
        },
        identity_providers: IdentityProvidersConfigView {
            providers: Seq::new(
                c.identity_providers.providers.len(),
                |i: int|
                    NamedProviderView {
                        id: c.identity_providers.providers[i].id,
                        provider: defaulted_provider(c.identity_providers.providers[i].provider),
                    },
            ),
            ..c.identity_providers
        },
        ..c
    }
}

/// What stands behind `://`, or everything where there is none.
pub fn strip_scheme(value: &str) -> (r: String)
    ensures
        r@ == schemeless(value@),
{
    match behind_first(value, "://") {
        Some(rest) => rest,
        None => value.to_owned(),
    }
}

/// The scopes that are asked for unless others are configured.
pub fn default_scopes() -> (r: Vec<String>)
    ensures
        text::texts(r@) == usual_scopes(),
{
    let mut out: Vec<String> = Vec::new();
    out.push("openid".to_owned());
    out.push("email".to_owned());
    out.push("profile".to_owned());
    assert(text::texts(out@) =~= usual_scopes());
    out
}

fn apply_provider_defaults(p: NamedProvider) -> (r: NamedProvider)
    ensures
        r@.id == p@.id,
        r@.provider == defaulted_provider(p@.provider),
{
    let mut out = p;
    if out.provider.scopes.len() == 0 {
        out.provider.scopes = default_scopes();
    }
    if out.provider.subject.strategy.is_empty() {
        out.provider.subject.strategy = "oidc_sub".to_owned();
    }
    if out.provider.trust.email_binding.is_empty() {
        out.provider.trust.email_binding = "disabled".to_owned();
    }
    assert(out@.provider =~= defaulted_provider(p@.provider));
    out
}

impl Config {
    /// Fills in what the configuration does not say.
    pub fn apply_defaults(&mut self)
        ensures
            final(self)@ == defaulted(old(self)@),
    {
        let ghost given = self@;
        if self.server.listen.is_empty() {
            self.server.listen = "127.0.0.1:8080".to_owned();
        }
        if self.server.grpc_listen.is_empty() {
            self.server.grpc_listen = "127.0.0.1:8081".to_owned();
        }
        if self.jwt.ttl_seconds == 0 {
            self.jwt.ttl_seconds = 3600;
        }
        if self.authz.backend.is_empty() {
            self.authz.backend = "rebac".to_owned();
        }
        if self.security.device_code_ttl_seconds == 0 {
            self.security.device_code_ttl_seconds = 600;
        }
        if self.security.device_poll_interval_seconds == 0 {
            self.security.device_poll_interval_seconds = 3;
        }
        if self.security.session_ttl_seconds == 0 {
            self.security.session_ttl_seconds = 3600;
        }
        if self.security.auth_session_ttl_seconds == 0 {
            self.security.auth_session_ttl_seconds = self.security.session_ttl_seconds;
        }
        if self.lore.auth_url.is_empty() && !self.server.public_base_url.is_empty() {
            self.lore.auth_url =
            cat2("ucs-auth://", strip_scheme(self.server.public_base_url.as_str()).as_str());
        }
        let mut emails: Vec<String> = Vec::new();
        let mut i: usize = 0;
        let ghost addresses = text::texts(self.admin.admin_emails@);
        while i < self.admin.admin_emails.len()
            invariant
                i <= self.admin.admin_emails@.len(),
                addresses == text::texts(self.admin.admin_emails@),
                emails@.len() == i,
                forall|j: int|
                    0 <= j < i ==> (#[trigger] emails@[j])@ == email::normalized(addresses[j]),
            decreases self.admin.admin_emails@.len() - i,
        {
            emails.push(normalize_email(self.admin.admin_emails[i].as_str()));
            i += 1;
        }
        self.admin.admin_emails = emails;
        let ghost listed = order::views(self.identity_providers.providers@);
        let mut rest: Vec<NamedProvider> = Vec::new();
        std::mem::swap(&mut rest, &mut self.identity_providers.providers);
        let mut done: Vec<NamedProvider> = Vec::new();
        while rest.len() > 0
            invariant
                done@.len() + rest@.len() == listed.len(),
                order::views(rest@) == listed.skip(done@.len() as int),
                forall|j: int|
                    0 <= j < done@.len() ==> (#[trigger] done@[j])@ == (NamedProviderView {
                        id: listed[j].id,
                        provider: defaulted_provider(listed[j].provider),
                    }),
            decreases rest@.len(),
        {
            let ghost before = order::views(rest@);
            let next = rest.remove(0);
            assert(next@ == before[0]);
            assert(order::views(rest@) =~= before.skip(1));
            assert(before[0] == listed[done@.len() as int]);
            assert(listed.skip(done@.len() as int).skip(1) =~= listed.skip(done@.len() as int + 1));
            let next = apply_provider_defaults(next);
            done.push(next);
        }
        self.identity_providers.providers = done;
        proof {
            let want = defaulted(given);
            assert(text::texts(self.admin.admin_emails@) =~= want.admin.admin_emails);
            assert(order::views(self.identity_providers.providers@)
                =~= want.identity_providers.providers);
            assert(self@.identity_providers =~= want.identity_providers);
            assert(self@.security =~= want.security);
            assert(self@.server =~= want.server);
            assert(self@.lore =~= want.lore);
            assert(self@.jwt =~= want.jwt);
            assert(self@.authz =~= want.authz);
            assert(self@.admin =~= want.admin);
            assert(self@ =~= want);
        }
    }
}

} // verus!
