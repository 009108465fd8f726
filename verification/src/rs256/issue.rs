//! The claims of a new token, and the test of those of an old one.

use vstd::prelude::*;

use crate::model::{ResourcePermission, ResourcePermissionView, VerifyOptions, VerifyOptionsView};
use crate::order;
use crate::roles;
use crate::rs256;
use crate::rs256::{
    crypto, AuthnOptions, AuthnOptionsView, AuthzOptions, AuthzOptionsView, Error, ErrorView,
    LoreClaims, LoreClaimsView, LoreResourcePermission, LoreResourcePermissionView, DEFAULT_ENV,
};
use crate::text;
use crate::text::{has_member, same};
use crate::time::{clock, Moment, Span};

verus! {

/// How long a token is good for unless it says so: an hour.
pub const DEFAULT_TTL_SECONDS: u64 = 3600;

/// The Unix time of a moment, or why there is none.
pub open spec fn seconds_at(m: Moment) -> Result<i64, ErrorView> {
    match m {
        Moment::BeforeEpoch(why) => Err(ErrorView::Crypto("time before unix epoch: "@ + why@)),
        Moment::SinceEpoch(s) => if s.secs <= i64::MAX {
            Ok(s.secs as i64)
        } else {
            Err(overflow())
        },
    }
}

/// The error for a time that is too far off.
pub open spec fn overflow() -> ErrorView {
    ErrorView::Crypto("time overflow: "@ + "out of range integral type conversion attempted"@)
}

/// The length of time that a token is good for.
pub open spec fn effective_ttl(ttl: Span) -> Span {
    if ttl.zero() {
        Span { secs: DEFAULT_TTL_SECONDS, nanos: 0 }
    } else {
        ttl
    }
}

/// The whole seconds between the epoch and the end of `ttl` after `start`.
pub open spec fn end_seconds(start: Span, ttl: Span) -> int {
    start.secs + ttl.secs + (start.nanos + ttl.nanos) / 1_000_000_000
}

/// The Unix time at the end of `ttl` after `m`, or why there is none.
pub open spec fn seconds_after(m: Moment, ttl: Span) -> Result<i64, ErrorView> {
    match m {
        Moment::BeforeEpoch(_) => Err(seconds_at(m)->Err_0),
        Moment::SinceEpoch(start) => if end_seconds(start, ttl) <= i64::MAX {
            Ok(end_seconds(start, ttl) as i64)
        } else {
            Err(overflow())
        },
    }
}

/// `s`, or `other` where `s` is empty.
pub open spec fn or_else(s: Seq<char>, other: Seq<char>) -> Seq<char> {
    if s.len() == 0 {
        other
    } else {
        s
    }
}

/// The first thing that an authentication token lacks.
pub open spec fn lacking(opts: AuthnOptionsView) -> Option<ErrorView> {
    if opts.issuer.len() == 0 {
        Some(ErrorView::MissingIssuer)
    } else if opts.audience.len() == 0 {
        Some(ErrorView::MissingAudience)
    } else if opts.subject.len() == 0 {
        Some(ErrorView::MissingSubject)
    } else if opts.idp.len() == 0 {
        Some(ErrorView::MissingIdp)
    } else {
        None
    }
}

/// The claims of an authentication token between two times.
pub open spec fn claims_between(
    opts: AuthnOptionsView,
    issued_at: i64,
    expires_at: i64,
) -> LoreClaimsView {
    LoreClaimsView {
        subject: opts.subject,
        issuer: opts.issuer,
        issued_at,
        expires_at,
        audience: opts.audience,
        env: or_else(opts.env, DEFAULT_ENV@),
        name: or_else(opts.name, opts.subject),
        preferred_username: or_else(opts.preferred_username, opts.subject),
        resources: Seq::empty(),
        groups: opts.groups,
        is_service_account: Some(opts.is_service_account),
        idp: opts.idp,
        jti: opts.jti,
    }
}

/// The claims of an authentication token that is issued at `now`.
pub open spec fn authn_claims(opts: AuthnOptionsView, now: Moment) -> Result<
    LoreClaimsView,
    ErrorView,
> {
    match lacking(opts) {
        Some(e) => Err(e),
        None => match seconds_at(now) {
            Err(e) => Err(e),
            Ok(issued_at) => match seconds_after(now, effective_ttl(opts.ttl)) {
                Err(e) => Err(e),
                Ok(expires_at) => Ok(claims_between(opts, issued_at, expires_at)),
            },
        },
    }
}

impl AuthzOptionsView {
    /// The options without the resources.
    pub open spec fn without_resources(self) -> AuthnOptionsView {
        AuthnOptionsView {
            issuer: self.issuer,
            audience: self.audience,
            subject: self.subject,
            env: self.env,
            name: self.name,
            preferred_username: self.preferred_username,
            groups: self.groups,
            idp: self.idp,
            is_service_account: self.is_service_account,
            ttl: self.ttl,
            now: self.now,
            jti: self.jti,
        }
    }
}

/// The claims of an authorization token that is issued at `now`.
pub open spec fn authz_claims(opts: AuthzOptionsView, now: Moment) -> Result<
    LoreClaimsView,
    ErrorView,
> {
    if opts.resources.len() == 0 {
        Err(ErrorView::MissingAuthzResources)
    } else {
        match authn_claims(opts.without_resources(), now) {
            Err(e) => Err(e),
            Ok(claims) => Ok(LoreClaimsView { resources: opts.resources, ..claims }),
        }
    }
}

/// The Unix time of a moment.
pub fn unix_seconds(time: &Moment) -> (r: Result<i64, Error>)
    ensures
        match r {
            Ok(n) => seconds_at(*time) == Ok::<i64, ErrorView>(n) && n >= 0,
            Err(e) => seconds_at(*time) == Err::<i64, ErrorView>(e@),
        },
{
    match time {
        Moment::BeforeEpoch(why) => Err(crypto("time before unix epoch: ", why.as_str())),
        Moment::SinceEpoch(s) => if s.secs <= 0x7fff_ffff_ffff_ffff {
            Ok(s.secs as i64)
        } else {
            Err(crypto("time overflow: ", "out of range integral type conversion attempted"))
        },
    }
}

/// The Unix time at the end of `ttl` after `time`.
pub fn unix_seconds_after(time: &Moment, ttl: Span) -> (r: Result<i64, Error>)
    ensures
        match r {
            Ok(n) => seconds_after(*time, ttl) == Ok::<i64, ErrorView>(n),
            Err(e) => seconds_after(*time, ttl) == Err::<i64, ErrorView>(e@),
        },
{
    match time {
        Moment::BeforeEpoch(why) => Err(crypto("time before unix epoch: ", why.as_str())),
        Moment::SinceEpoch(start) => {
            let carry: u64 = (start.nanos as u64 + ttl.nanos as u64) / 1_000_000_000;
            let end: u128 = start.secs as u128 + ttl.secs as u128 + carry as u128;
            if end <= 0x7fff_ffff_ffff_ffff {
                Ok(end as i64)
            } else {
                Err(crypto("time overflow: ", "out of range integral type conversion attempted"))
            }
        },
    }
}

/// The length of time that a token is good for.
pub fn default_ttl(ttl: Span) -> (r: Span)
    ensures
        r == effective_ttl(ttl),
{
    if ttl.is_zero() {
        Span::from_secs(DEFAULT_TTL_SECONDS)
    } else {
        ttl
    }
}

/// The time, or that of the clock where there is none.
pub fn default_now(now: Option<Moment>) -> (r: Moment)
    ensures
        now matches Some(m) ==> r == m,
{
    match now {
        Some(m) => m,
        None => clock(),
    }
}

/// The environment, or the usual one where there is none.
pub fn default_env(env: String) -> (r: String)
    ensures
        r@ == or_else(env@, DEFAULT_ENV@),
{
    if env.is_empty() {
        DEFAULT_ENV.to_owned()
    } else {
        env
    }
}

/// `value`, or the subject where it is empty.
pub fn default_to_subject(value: String, subject: &str) -> (r: String)
    ensures
        r@ == or_else(value@, subject@),
{
    if value.is_empty() {
        subject.to_owned()
    } else {
        value
    }
}

/// The claims of an authentication token that is issued at `now`.
pub fn new_authn_claims_at(opts: AuthnOptions, now: &Moment) -> (r: Result<LoreClaims, Error>)
    ensures
        rs256::outcome(r) == authn_claims(opts@, *now),
{
    let ghost given = opts@;
    if opts.issuer.is_empty() {
        return Err(Error::MissingIssuer);
    }
    if opts.audience.len() == 0 {
        return Err(Error::MissingAudience);
    }
    if opts.subject.is_empty() {
        return Err(Error::MissingSubject);
    }
    if opts.idp.is_empty() {
        return Err(Error::MissingIdp);
    }
    let issued_at: i64 = match unix_seconds(now) {
        Ok(n) => n,
        Err(e) => return Err(e),
    };
    let expires_at: i64 = match unix_seconds_after(now, default_ttl(opts.ttl)) {
        Ok(n) => n,
        Err(e) => return Err(e),
    };
    let name = default_to_subject(opts.name, opts.subject.as_str());
    let preferred_username = default_to_subject(opts.preferred_username, opts.subject.as_str());
    let claims = LoreClaims {
        subject: opts.subject,
        issuer: opts.issuer,
        issued_at,
        expires_at,
        audience: opts.audience,
        env: default_env(opts.env),
        name,
        preferred_username,
        resources: Vec::new(),
        groups: opts.groups,
        is_service_account: Some(opts.is_service_account),
        idp: opts.idp,
        jti: opts.jti,
    };
    assert(claims@ =~= claims_between(given, issued_at, expires_at));
    Ok(claims)
}

/// The claims of an authentication token.
pub fn new_authn_claims(opts: AuthnOptions) -> (r: Result<LoreClaims, Error>)
    ensures
        exists|now: Moment|
            (opts@.now matches Some(m) ==> now == m) && rs256::outcome(r) == #[trigger] authn_claims(
                opts@,
                now,
            ),
{
    let ghost given = opts@;
    let AuthnOptions {
        issuer,
        audience,
        subject,
        env,
        name,
        preferred_username,
        groups,
        idp,
        is_service_account,
        ttl,
        now,
        jti,
    } = opts;
    let time = default_now(now);
    let opts = AuthnOptions {
        issuer,
        audience,
        subject,
        env,
        name,
        preferred_username,
        groups,
        idp,
        is_service_account,
        ttl,
        now: None,
        jti,
    };
    let r = new_authn_claims_at(opts, &time);
    assert(authn_claims(opts@, time) == authn_claims(given, time));
    r
}

/// The claims of an authorization token that is issued at `now`.
pub fn new_authz_claims_at(opts: AuthzOptions, now: &Moment) -> (r: Result<LoreClaims, Error>)
    ensures
        rs256::outcome(r) == authz_claims(opts@, *now),
{
    let ghost given = opts@;
    if opts.resources.len() == 0 {
        return Err(Error::MissingAuthzResources);
    }
    let authn = AuthnOptions {
        issuer: opts.issuer,
        audience: opts.audience,
        subject: opts.subject,
        env: opts.env,
        name: opts.name,
        preferred_username: opts.preferred_username,
        groups: opts.groups,
        idp: opts.idp,
        is_service_account: opts.is_service_account,
        ttl: opts.ttl,
        now: opts.now,
        jti: opts.jti,
    };
    assert(authn@ =~= given.without_resources());
    match new_authn_claims_at(authn, now) {
        Err(e) => Err(e),
        Ok(mut claims) => {
            let ghost plain = claims@;
            claims.resources = opts.resources;
            assert(claims@ =~= (LoreClaimsView { resources: given.resources, ..plain }));
            Ok(claims)
        },
    }
}

/// The claims of an authorization token.
pub fn new_authz_claims(opts: AuthzOptions) -> (r: Result<LoreClaims, Error>)
    ensures
        exists|now: Moment|
            (opts@.now matches Some(m) ==> now == m) && rs256::outcome(r) == #[trigger] authz_claims(
                opts@,
                now,
            ),
{
    let ghost given = opts@;
    let AuthzOptions {
        issuer,
        audience,
        subject,
        env,
        name,
        preferred_username,
        groups,
        idp,
        is_service_account,
        resources,
        ttl,
        now,
        jti,
    } = opts;
    let time = default_now(now);
    let opts = AuthzOptions {
        issuer,
        audience,
        subject,
        env,
        name,
        preferred_username,
        groups,
        idp,
        is_service_account,
        resources,
        ttl,
        now: None,
        jti,
    };
    let r = new_authz_claims_at(opts, &time);
    assert(authz_claims(opts@, time) == authz_claims(given, time));
    r
}

/// What is wrong with the claims of a token at `now`.
pub open spec fn objection(
    claims: LoreClaimsView,
    opts: VerifyOptionsView,
    now: Moment,
) -> Option<ErrorView> {
    if claims.expires_at == 0 {
        Some(ErrorView::MissingExpiration)
    } else {
        match seconds_at(now) {
            Err(e) => Some(e),
            Ok(n) => if n >= claims.expires_at {
                Some(ErrorView::Expired)
            } else if opts.issuer.len() > 0 && claims.issuer != opts.issuer {
                Some(ErrorView::UnexpectedIssuer(claims.issuer))
            } else if opts.audience.len() > 0 && !claims.audience.contains(opts.audience) {
                Some(ErrorView::AudienceNotPresent(opts.audience))
            } else {
                None
            },
        }
    }
}

/// Tests the claims of a token at `now`.
pub fn validate_claims(claims: &LoreClaims, opts: VerifyOptions, now: &Moment) -> (r: Result<
    (),
    Error,
>)
    ensures
        match r {
            Ok(()) => objection(claims@, opts@, *now) is None,
            Err(e) => objection(claims@, opts@, *now) == Some(e@),
        },
{
    if claims.expires_at == 0 {
        return Err(Error::MissingExpiration);
    }
    let now: i64 = match unix_seconds(now) {
        Ok(n) => n,
        Err(e) => return Err(e),
    };
    if now >= claims.expires_at {
        return Err(Error::Expired);
    }
    if !opts.issuer.is_empty() && !same(claims.issuer.as_str(), opts.issuer.as_str()) {
        return Err(Error::UnexpectedIssuer(claims.issuer.clone()));
    }
    if !opts.audience.is_empty() && !has_member(&claims.audience, opts.audience.as_str()) {
        return Err(Error::AudienceNotPresent(opts.audience));
    }
    Ok(())
}

/// The names of permissions.
pub open spec fn permission_names(v: Seq<roles::Permission>) -> Seq<Seq<char>> {
    Seq::new(v.len(), |i: int| roles::permission_name(v[i]))
}

/// A permission on a resource as a token says it.
pub open spec fn claim_resource(r: ResourcePermissionView) -> LoreResourcePermissionView {
    LoreResourcePermissionView {
        resource_id: r.resource_id,
        permission: permission_names(r.permission),
    }
}

/// Permissions on resources as a token says them.
pub open spec fn claim_resources(v: Seq<ResourcePermissionView>) -> Seq<
    LoreResourcePermissionView,
> {
    Seq::new(v.len(), |i: int| claim_resource(v[i]))
}

/// A permission on a resource as a token says it.
pub fn model_resource_to_claim_resource(resource: &ResourcePermission) -> (r:
    LoreResourcePermission)
    ensures
        r@ == claim_resource(resource@),
{
    let mut permission: Vec<String> = Vec::new();
    let mut i: usize = 0;
    while i < resource.permission.len()
        invariant
            i <= resource.permission@.len(),
            permission@.len() == i,
            forall|j: int|
                0 <= j < i ==> (#[trigger] permission@[j])@ == roles::permission_name(
                    resource.permission@[j],
                ),
        decreases resource.permission@.len() - i,
    {
        permission.push(resource.permission[i].as_str().to_owned());
        i += 1;
    }
    assert(text::texts(permission@) =~= permission_names(resource.permission@));
    LoreResourcePermission { resource_id: resource.resource_id.clone(), permission }
}

/// Permissions on resources as a token says them.
pub fn claim_resources_of(v: &Vec<ResourcePermission>) -> (r: Vec<LoreResourcePermission>)
    ensures
        order::views(r@) == claim_resources(order::views(v@)),
{
    let mut out: Vec<LoreResourcePermission> = Vec::new();
    let mut i: usize = 0;
    while i < v.len()
        invariant
            i <= v@.len(),
            out@.len() == i,
            forall|j: int| 0 <= j < i ==> (#[trigger] out@[j])@ == claim_resource(v@[j]@),
        decreases v@.len() - i,
    {
        out.push(model_resource_to_claim_resource(&v[i]));
        i += 1;
    }
    assert(order::views(out@) =~= claim_resources(order::views(v@)));
    out
}

/// A token is good for as long as it was asked to be, or for an hour, to the
/// second.
pub proof fn law_claims_last_as_asked(opts: AuthnOptionsView, now: Moment)
    requires
        now.wf(),
        opts.ttl.wf(),
        authn_claims(opts, now) is Ok,
    ensures
        ({
            let claims = authn_claims(opts, now)->Ok_0;
            let asked = effective_ttl(opts.ttl).secs;
            asked <= claims.expires_at - claims.issued_at <= asked + 1
        }),
{
}

/// Fresh claims are accepted by whoever asks for their issuer and one of their
/// audiences, from when they are issued until they expire, and not after.
pub proof fn law_fresh_claims_are_accepted(
    opts: AuthnOptionsView,
    issued: Moment,
    wanted: VerifyOptionsView,
    now: Moment,
)
    requires
        authn_claims(opts, issued) is Ok,
        now is SinceEpoch,
        wanted.issuer.len() == 0 || wanted.issuer == opts.issuer,
        wanted.audience.len() == 0 || opts.audience.contains(wanted.audience),
    ensures
        objection(authn_claims(opts, issued)->Ok_0, wanted, now) is None
            <==> now->SinceEpoch_0.secs < authn_claims(opts, issued)->Ok_0.expires_at,
{
}

} // verus!
