//! What a signed token says, from what was asked for.

use vstd::prelude::*;

use crate::encoding;
use crate::error::CoreErrorView;
use crate::json;
use crate::model::{
    AuthnTokenInputView, AuthzTokenInputView, SignedTokenView, SigningKeyMetaView,
    VerifiedTokenView, VerifyOptionsView,
};
use crate::roles::Permission;
use crate::rs256;
use crate::rs256::keys::SigningKeyView;
use crate::rs256::{
    admin, issue, keys, making, signer, wire, AuthnOptionsView, AuthzOptionsView, ErrorView, JwkSetView,
    LoreClaimsView, LoreResourcePermissionView, RsaJwkView,
};
use crate::text;
use crate::time::{Moment, Span};

verus! {

/// A token for repositories says what was asked for. The `i`-th resource in its claims
/// has the identifier of the `i`-th that was asked for and as many permissions, the
/// `j`-th of which is the text `read`, `write` or `admin` for the permission `Read`,
/// `Write` or `Admin`. So what the answer says of the first resource is what the token
/// says of it.
pub proof fn law_token_says_what_is_permitted(
    input: AuthzTokenInputView,
    jti: Seq<char>,
    now: Moment,
    key: SigningKeyView,
    claims: LoreClaimsView,
    r: Result<SignedTokenView, CoreErrorView>,
)
    requires
        issue::authz_claims(signer::authz_options(input, jti), now) == Ok::<_, ErrorView>(
            claims,
        ),
        signer::is_signing(r, key, Ok(claims), signer::first_resource(input)),
    ensures
        r is Ok <==> key.signed(claims) is Ok,
        input.resources.len() > 0,
        claims.resources.len() == input.resources.len(),
        forall|i: int|
            #![trigger claims.resources[i]]
            0 <= i < input.resources.len() ==> {
                &&& claims.resources[i].resource_id == input.resources[i].resource_id
                &&& claims.resources[i].permission.len() == input.resources[i].permission.len()
            },
        forall|i: int, j: int|
            #![trigger claims.resources[i].permission[j]]
            0 <= i < input.resources.len() && 0 <= j < input.resources[i].permission.len()
                ==> claims.resources[i].permission[j] == match input.resources[i].permission[j] {
                Permission::Read => "read"@,
                Permission::Write => "write"@,
                Permission::Admin => "admin"@,
            },
        r matches Ok(token) ==> {
            &&& token.lore_resource_id == input.resources[0].resource_id
            &&& token.permissions == input.resources[0].permission
            &&& token.lore_resource_id == claims.resources[0].resource_id
            &&& token.permissions.len() == claims.resources[0].permission.len()
            &&& forall|j: int|
                #![trigger token.permissions[j]]
                0 <= j < token.permissions.len() ==> claims.resources[0].permission[j]
                    == match token.permissions[j] {
                    Permission::Read => "read"@,
                    Permission::Write => "write"@,
                    Permission::Admin => "admin"@,
                }
            &&& key.signs(claims, token.token)
            &&& token.jti == jti
            &&& token.kid == key.kid
            &&& token.issued_at == claims.issued_at
            &&& token.expires_at == claims.expires_at
            &&& token.audience == input.audience
        },
{
    assert forall|i: int, j: int|
        #![trigger claims.resources[i].permission[j]]
        0 <= i < input.resources.len() && 0 <= j < input.resources[i].permission.len() implies claims.resources[i].permission[j]
        == match input.resources[i].permission[j] {
        Permission::Read => "read"@,
        Permission::Write => "write"@,
        Permission::Admin => "admin"@,
    } by {
        assert(claims.resources[i] == issue::claim_resource(input.resources[i]));
    }
    if let Ok(token) = r {
        assert forall|j: int|
            #![trigger token.permissions[j]]
            0 <= j < token.permissions.len() implies claims.resources[0].permission[j]
            == match token.permissions[j] {
            Permission::Read => "read"@,
            Permission::Write => "write"@,
            Permission::Admin => "admin"@,
        } by {
            assert(input.resources[0].permission[j] == token.permissions[j]);
            assert(claims.resources[0].permission[j] == claims.resources[0].permission[j]);
        }
    }
}

/// The claims of a token for repositories are those of a login token but for the
/// resources: whom it is for, from whom, for which audience, and everything else that
/// was asked for. A name that was not given is the subject, and the environment is
/// `prod`.
pub proof fn law_repository_claims_are_what_was_asked(
    input: AuthzTokenInputView,
    jti: Seq<char>,
    now: Moment,
    claims: LoreClaimsView,
)
    requires
        issue::authz_claims(signer::authz_options(input, jti), now) == Ok::<_, ErrorView>(
            claims,
        ),
    ensures
        claims.subject == input.subject,
        claims.issuer == input.issuer,
        claims.audience == input.audience,
        claims.groups == input.groups,
        claims.idp == input.idp,
        claims.jti == jti,
        claims.is_service_account == Some(false),
        claims.env == "prod"@,
        input.name.len() > 0 ==> claims.name == input.name,
        input.name.len() == 0 ==> claims.name == input.subject,
        input.preferred_username.len() > 0 ==> claims.preferred_username
            == input.preferred_username,
        input.preferred_username.len() == 0 ==> claims.preferred_username == input.subject,
        claims.subject.len() > 0 && claims.issuer.len() > 0 && claims.audience.len() > 0
            && claims.idp.len() > 0,
        now matches Moment::SinceEpoch(s) && s.secs == claims.issued_at,
{
}

/// The claims of a login token are what was asked for, with no resources. A name that
/// was not given is the subject.
pub proof fn law_login_claims_are_what_was_asked(
    input: AuthnTokenInputView,
    jti: Seq<char>,
    now: Moment,
    key: SigningKeyView,
    claims: LoreClaimsView,
    r: Result<SignedTokenView, CoreErrorView>,
)
    requires
        issue::authn_claims(signer::authn_options(input, jti), now) == Ok::<_, ErrorView>(
            claims,
        ),
        signer::is_signing(r, key, Ok(claims), (Seq::empty(), Seq::empty())),
    ensures
        r is Ok <==> key.signed(claims) is Ok,
        claims.subject == input.subject,
        claims.issuer == input.issuer,
        claims.audience == input.audience,
        claims.groups == input.groups,
        claims.idp == input.idp,
        claims.jti == jti,
        claims.is_service_account == Some(false),
        claims.env == "prod"@,
        claims.resources.len() == 0,
        input.name.len() > 0 ==> claims.name == input.name,
        input.name.len() == 0 ==> claims.name == input.subject,
        input.preferred_username.len() > 0 ==> claims.preferred_username
            == input.preferred_username,
        input.preferred_username.len() == 0 ==> claims.preferred_username == input.subject,
        claims.subject.len() > 0 && claims.issuer.len() > 0 && claims.audience.len() > 0
            && claims.idp.len() > 0,
        now matches Moment::SinceEpoch(s) && s.secs == claims.issued_at,
        r matches Ok(token) ==> {
            &&& key.signs(claims, token.token)
            &&& token.jti == jti
            &&& token.kid == key.kid
            &&& token.issued_at == claims.issued_at
            &&& token.expires_at == claims.expires_at
            &&& token.audience == input.audience
            &&& token.permissions.len() == 0
            &&& token.lore_resource_id.len() == 0
        },
{
}

/// A token lasts as long as it was asked to, to the second, and an hour where nothing
/// was said: from when it is issued, `asked` seconds, and one more at most where the
/// fractions of a second make one.
pub proof fn law_token_lasts(opts: AuthnOptionsView, now: Moment, claims: LoreClaimsView)
    requires
        now.wf(),
        opts.ttl.wf(),
        issue::authn_claims(opts, now) == Ok::<_, ErrorView>(claims),
    ensures
        opts.ttl.secs == 0 && opts.ttl.nanos == 0 ==> claims.expires_at == claims.issued_at + 3600,
        opts.ttl.secs > 0 && opts.ttl.nanos == 0 ==> claims.expires_at == claims.issued_at
            + opts.ttl.secs,
        opts.ttl.nanos > 0 ==> claims.issued_at + opts.ttl.secs <= claims.expires_at
            <= claims.issued_at + opts.ttl.secs + 1,
        opts.env.len() > 0 ==> claims.env == opts.env,
        opts.env.len() == 0 ==> claims.env == "prod"@,
        claims.is_service_account == Some(opts.is_service_account),
{
}

/// Claims need an issuer, an audience, a subject and a provider, and a token for
/// repositories needs a resource; what is missing first is said.
pub proof fn law_claims_need_their_parts(
    opts: AuthnOptionsView,
    more: AuthzOptionsView,
    now: Moment,
)
    ensures
        opts.issuer.len() == 0 ==> issue::authn_claims(opts, now) == Err::<LoreClaimsView, _>(
            ErrorView::MissingIssuer,
        ),
        opts.issuer.len() > 0 && opts.audience.len() == 0 ==> issue::authn_claims(opts, now)
            == Err::<LoreClaimsView, _>(ErrorView::MissingAudience),
        opts.issuer.len() > 0 && opts.audience.len() > 0 && opts.subject.len() == 0
            ==> issue::authn_claims(opts, now) == Err::<LoreClaimsView, _>(
            ErrorView::MissingSubject,
        ),
        opts.issuer.len() > 0 && opts.audience.len() > 0 && opts.subject.len() > 0
            && opts.idp.len() == 0 ==> issue::authn_claims(opts, now) == Err::<LoreClaimsView, _>(
            ErrorView::MissingIdp,
        ),
        opts.issuer.len() > 0 && opts.audience.len() > 0 && opts.subject.len() > 0
            && opts.idp.len() > 0 && (now matches Moment::SinceEpoch(s) && s.secs + opts.ttl.secs
            + 3600 < i64::MAX) && now.wf() && opts.ttl.wf() ==> issue::authn_claims(
            opts,
            now,
        ) is Ok,
        now is BeforeEpoch ==> issue::authn_claims(opts, now) is Err,
        more.resources.len() == 0 ==> issue::authz_claims(more, now) == Err::<LoreClaimsView, _>(
            ErrorView::MissingAuthzResources,
        ),
        more.resources.len() > 0 && more.issuer.len() > 0 && more.audience.len() > 0
            && more.subject.len() > 0 && more.idp.len() > 0 && (now matches Moment::SinceEpoch(s)
            && s.secs + more.ttl.secs + 3600 < i64::MAX) && now.wf() && more.ttl.wf()
            ==> issue::authz_claims(more, now) is Ok,
{
}

/// Claims are accepted exactly if they expire, and later than now, and come from the
/// issuer and for the audience that are asked for, if any are. Otherwise the first of
/// these that fails is said.
pub proof fn law_claims_are_accepted_exactly_if_good(
    claims: LoreClaimsView,
    wanted: VerifyOptionsView,
    now: Moment,
    seconds: int,
)
    requires
        now matches Moment::SinceEpoch(s) && s.secs == seconds,
        seconds <= i64::MAX,
    ensures
        claims.expires_at == 0 ==> issue::objection(claims, wanted, now) == Some(
            ErrorView::MissingExpiration,
        ),
        claims.expires_at != 0 && claims.expires_at <= seconds ==> issue::objection(
            claims,
            wanted,
            now,
        ) == Some(ErrorView::Expired),
        claims.expires_at > seconds && wanted.issuer.len() > 0 && wanted.issuer != claims.issuer
            ==> issue::objection(claims, wanted, now) == Some(
            ErrorView::UnexpectedIssuer(claims.issuer),
        ),
        claims.expires_at > seconds && (wanted.issuer.len() == 0 || wanted.issuer == claims.issuer)
            && wanted.audience.len() > 0 && !claims.audience.contains(wanted.audience)
            ==> issue::objection(claims, wanted, now) == Some(
            ErrorView::AudienceNotPresent(wanted.audience),
        ),
        claims.expires_at > seconds && (wanted.issuer.len() == 0 || wanted.issuer == claims.issuer)
            && (wanted.audience.len() == 0 || claims.audience.contains(wanted.audience))
            ==> issue::objection(claims, wanted, now) is None,
{
}

/// A token that is accepted is answered with what its claims say, and one that is not
/// is refused without a reason.
pub proof fn law_verified_token_is_its_claims(
    claims: LoreClaimsView,
    wanted: VerifyOptionsView,
    now: Moment,
)
    ensures
        issue::objection(claims, wanted, now) is Some ==> signer::verified(claims, wanted, now)
            == Err::<VerifiedTokenView, _>(CoreErrorView::Unauthenticated),
        issue::objection(claims, wanted, now) is None ==> (signer::verified(
            claims,
            wanted,
            now,
        ) matches Ok(v) && {
            &&& v.subject == claims.subject
            &&& v.jti == claims.jti
            &&& v.idp == claims.idp
            &&& v.expires_at == claims.expires_at
            &&& v.audience == claims.audience
            &&& v.raw_claims == vstd::utf8::encode_utf8(wire::claims_json(claims))
        }),
{
}

/// Only a token of three parts is read, with a header that says `RS256` and names the
/// key, and with a signature by the key over the first two parts.
pub proof fn law_payload_needs_the_signature(
    key: SigningKeyView,
    compact: Seq<char>,
    header: Option<(Seq<char>, Option<Seq<char>>)>,
)
    ensures
        key.payload_with(compact, header) is Ok <==> {
            let parts = text::split_on(compact, '.');
            &&& header == Some(("RS256"@, Some(key.kid)))
            &&& parts.len() == 3
            &&& keys::rs256_accepts(
                key.modulus,
                key.exponent,
                vstd::utf8::encode_utf8(parts[0] + "."@ + parts[1]),
                parts[2],
            )
            &&& encoding::base64url_decoded(parts[1]) is Ok
        },
        key.payload_with(compact, header) matches Ok(raw) ==> encoding::base64url_decoded(
            text::split_on(compact, '.')[1],
        ) == Ok::<_, Seq<char>>(raw),
        key.payload_with(compact, header) is Err ==> key.payload_with(compact, header) == Err::<
            Seq<u8>,
            _,
        >(CoreErrorView::Unauthenticated),
{
}

/// The public half of a key is written as a key for RSA signatures with the name and
/// the algorithm of the key, and its modulus and exponent in base64.
pub proof fn law_public_key_is_that_of_the_key(kid: Seq<char>, der: Seq<u8>)
    ensures
        ({
            let key = SigningKeyView::of(kid, der);
            &&& key.kid == kid
            &&& key.alg == "RS256"@
            &&& key.der == der
            &&& key.modulus == keys::rsa_modulus(der)
            &&& key.exponent == keys::rsa_exponent(der)
            &&& key.jwk().kty == "RSA"@
            &&& key.jwk().use_ == "sig"@
            &&& key.jwk().kid == kid
            &&& key.jwk().alg == "RS256"@
            &&& key.jwk().n == encoding::base64url(keys::rsa_modulus(der))
            &&& key.jwk().e == encoding::base64url(keys::rsa_exponent(der))
        }),
{
}

/// A key is read in either of its two forms, the newer first, under the name that it
/// is given; it needs a name.
pub proof fn law_key_is_read_in_either_form(kid: Seq<char>, pem: Seq<char>, der: Seq<u8>)
    ensures
        kid.len() == 0 ==> keys::named_key_in(kid, pem) == Err::<SigningKeyView, _>(
            ErrorView::MissingKid,
        ),
        kid.len() > 0 && keys::pkcs8_key(pem) == Some(Ok::<_, Seq<char>>(der)) ==> keys::named_key_in(
            kid,
            pem,
        ) == Ok::<_, ErrorView>(SigningKeyView::of(kid, der)),
        kid.len() > 0 && keys::pkcs8_key(pem) is None && keys::pkcs1_key(pem) == Some(
            Ok::<_, Seq<char>>(der),
        ) ==> keys::named_key_in(kid, pem) == Ok::<_, ErrorView>(SigningKeyView::of(kid, der)),
        kid.len() > 0 && keys::pkcs8_key(pem) is None && keys::pkcs1_key(pem) is None
            ==> keys::named_key_in(kid, pem) == Err::<SigningKeyView, _>(
            ErrorView::UnsupportedPrivateKey,
        ),
{
}

/// The size of a key is what was asked for, or 2048 bits where nothing was.
pub proof fn law_key_size(bits: u32)
    ensures
        bits > 0 ==> keys::key_bits(bits) == bits,
        bits == 0 ==> keys::key_bits(bits) == 2048,
{
}

/// A key can be asked for by a name of letters, digits, `_`, `.` and `-`, for the one
/// algorithm that there is, or for none. A name that is there already is refused, and
/// so is one that could not be looked up.
pub proof fn law_key_request(
    kid: Seq<char>,
    alg: Seq<char>,
    found: Result<SigningKeyMetaView, CoreErrorView>,
)
    ensures
        admin::request_objection(kid, alg) is None <==> {
            &&& alg.len() == 0 || alg == "RS256"@
            &&& kid.len() > 0
            &&& forall|i: int|
                0 <= i < kid.len() ==> ('a' <= #[trigger] kid[i] <= 'z' || 'A' <= kid[i] <= 'Z'
                    || '0' <= kid[i] <= '9' || kid[i] == '_' || kid[i] == '.' || kid[i] == '-')
        },
        found is Ok ==> admin::name_objection(kid, found) is Some,
        found == Err::<SigningKeyMetaView, _>(CoreErrorView::NotFound) ==> admin::name_objection(
            kid,
            found,
        ) is None,
        found is Err && found->Err_0 != CoreErrorView::NotFound ==> admin::name_objection(kid, found)
            == Some(found->Err_0),
{
    assert(forall|i: int| 0 <= i < kid.len() ==> admin::is_kid_char(#[trigger] kid[i]) == (('a'
        <= kid[i] <= 'z' || 'A' <= kid[i] <= 'Z' || '0' <= kid[i] <= '9' || kid[i] == '_' || kid[i]
        == '.' || kid[i] == '-')));
}

/// What is recorded of a new key: its name and algorithm, where its private half is
/// kept, its public half as JSON, and that it is active.
pub proof fn law_key_record(key: SigningKeyView, path: Seq<char>)
    ensures
        ({
            let meta = admin::new_key_record(key, path);
            &&& meta.kid == key.kid
            &&& meta.alg == key.alg
            &&& meta.private_key_path == path
            &&& meta.status == "active"@
            &&& meta.public_jwk_json == wire::jwk_json(key.jwk())
        }),
{
}

// ---------------------------------------------------------------------------
// What is written
// ---------------------------------------------------------------------------

proof fn lemma_first_or_second(a: Seq<Seq<char>>, b: Seq<Seq<char>>)
    ensures
        forall|i: int| 0 <= i < a.len() ==> (a + b).contains(#[trigger] a[i]),
        forall|x: Seq<char>| a.contains(x) ==> #[trigger] (a + b).contains(x),
        forall|x: Seq<char>| b.contains(x) ==> #[trigger] (a + b).contains(x),
{
    assert forall|i: int| 0 <= i < a.len() implies (a + b).contains(#[trigger] a[i]) by {
        assert((a + b)[i] == a[i]);
    }
    assert forall|x: Seq<char>| b.contains(x) implies #[trigger] (a + b).contains(x) by {
        let i = choose|i: int| 0 <= i < b.len() && b[i] == x;
        assert((a + b)[a.len() + i] == x);
    }
    assert forall|x: Seq<char>| a.contains(x) implies #[trigger] (a + b).contains(x) by {
        let i = choose|i: int| 0 <= i < a.len() && a[i] == x;
        assert((a + b)[i] == x);
    }
}

/// The claims are written under the names that readers of tokens know them by, each
/// with its own value; resources, groups and the rest that may be left out are written
/// where there are any.
#[verifier::spinoff_prover]
pub proof fn law_claims_are_written_under_their_names(c: LoreClaimsView)
    ensures
        text::has_text(wire::claims_json(c), "\"sub\":"@ + json::quoted(c.subject)),
        text::has_text(wire::claims_json(c), "\"iss\":"@ + json::quoted(c.issuer)),
        text::has_text(wire::claims_json(c), "\"iat\":"@ + json::number(c.issued_at)),
        text::has_text(wire::claims_json(c), "\"exp\":"@ + json::number(c.expires_at)),
        text::has_text(
            wire::claims_json(c),
            "\"aud\":"@ + json::array(json::all_quoted(c.audience)),
        ),
        text::has_text(wire::claims_json(c), "\"env\":"@ + json::quoted(c.env)),
        text::has_text(wire::claims_json(c), "\"name\":"@ + json::quoted(c.name)),
        text::has_text(
            wire::claims_json(c),
            "\"preferred_username\":"@ + json::quoted(c.preferred_username),
        ),
        text::has_text(wire::claims_json(c), "\"idp\":"@ + json::quoted(c.idp)),
        c.resources.len() > 0 ==> text::has_text(
            wire::claims_json(c),
            "\"resources\":"@ + wire::resources_json(c.resources),
        ),
        c.groups.len() > 0 ==> text::has_text(
            wire::claims_json(c),
            "\"groups\":"@ + json::array(json::all_quoted(c.groups)),
        ),
        c.is_service_account == Some(true) ==> text::has_text(
            wire::claims_json(c),
            "\"is_service_account\":"@ + "true"@,
        ),
        c.is_service_account == Some(false) ==> text::has_text(
            wire::claims_json(c),
            "\"is_service_account\":"@ + "false"@,
        ),
        c.jti.len() > 0 ==> text::has_text(
            wire::claims_json(c),
            "\"jti\":"@ + json::quoted(c.jti),
        ),
{
    let first = seq![
        "\"sub\":"@ + json::quoted(c.subject),
        "\"iss\":"@ + json::quoted(c.issuer),
        "\"iat\":"@ + json::number(c.issued_at),
        "\"exp\":"@ + json::number(c.expires_at),
        "\"aud\":"@ + json::array(json::all_quoted(c.audience)),
        "\"env\":"@ + json::quoted(c.env),
        "\"name\":"@ + json::quoted(c.name),
        "\"preferred_username\":"@ + json::quoted(c.preferred_username),
    ];
    let resources = wire::member_if(
        c.resources.len() > 0,
        "\"resources\":"@ + wire::resources_json(c.resources),
    );
    let groups = wire::member_if(
        c.groups.len() > 0,
        "\"groups\":"@ + json::array(json::all_quoted(c.groups)),
    );
    let service = wire::member_if(
        c.is_service_account is Some,
        "\"is_service_account\":"@ + json::truth(c.is_service_account->0),
    );
    let idp = seq!["\"idp\":"@ + json::quoted(c.idp)];
    let jti = wire::member_if(c.jti.len() > 0, "\"jti\":"@ + json::quoted(c.jti));
    let two = first + resources;
    let three = two + groups;
    let four = three + service;
    let five = four + idp;
    let all = five + jti;
    lemma_first_or_second(first, resources);
    lemma_first_or_second(two, groups);
    lemma_first_or_second(three, service);
    lemma_first_or_second(four, idp);
    lemma_first_or_second(five, jti);
    assert(wire::claims_json(c) == json::object(all));
    assert forall|i: int| 0 <= i < first.len() implies all.contains(#[trigger] first[i]) by {
        assert(two.contains(first[i]));
        assert(three.contains(first[i]));
        assert(four.contains(first[i]));
        assert(five.contains(first[i]));
    }
    assert(idp.contains(idp[0]) && four.len() >= 0);
    assert(all.contains(idp[0])) by {
        assert(five.contains(idp[0]));
    }
    if c.resources.len() > 0 {
        assert(resources.contains(resources[0]));
        assert(two.contains(resources[0]));
        assert(three.contains(resources[0]));
        assert(four.contains(resources[0]));
        assert(five.contains(resources[0]));
        json::law_object_holds_its_members(all, resources[0]);
    }
    if c.groups.len() > 0 {
        assert(groups.contains(groups[0]));
        assert(three.contains(groups[0]));
        assert(four.contains(groups[0]));
        assert(five.contains(groups[0]));
        json::law_object_holds_its_members(all, groups[0]);
    }
    if c.is_service_account is Some {
        assert(service.contains(service[0]));
        assert(four.contains(service[0]));
        assert(five.contains(service[0]));
        json::law_object_holds_its_members(all, service[0]);
    }
    if c.jti.len() > 0 {
        assert(jti.contains(jti[0]));
        json::law_object_holds_its_members(all, jti[0]);
    }
    json::law_object_holds_its_members(all, idp[0]);
    json::law_object_holds_its_members(all, first[0]);
    json::law_object_holds_its_members(all, first[1]);
    json::law_object_holds_its_members(all, first[2]);
    json::law_object_holds_its_members(all, first[3]);
    json::law_object_holds_its_members(all, first[4]);
    json::law_object_holds_its_members(all, first[5]);
    json::law_object_holds_its_members(all, first[6]);
    json::law_object_holds_its_members(all, first[7]);
}

/// A resource is written with its identifier and all its permissions, and every
/// resource of a list is written.
pub proof fn law_resources_are_written(v: Seq<LoreResourcePermissionView>, i: int, j: int)
    requires
        0 <= i < v.len(),
        0 <= j < v[i].permission.len(),
    ensures
        text::has_text(wire::resources_json(v), wire::resource_json(v[i])),
        text::has_text(
            wire::resource_json(v[i]),
            "\"resource_id\":"@ + json::quoted(v[i].resource_id),
        ),
        text::has_text(
            wire::resource_json(v[i]),
            "\"permission\":"@ + json::array(json::all_quoted(v[i].permission)),
        ),
        text::has_text(
            json::array(json::all_quoted(v[i].permission)),
            json::quoted(v[i].permission[j]),
        ),
{
    let all = Seq::new(v.len(), |k: int| wire::resource_json(v[k]));
    assert(all[i] == wire::resource_json(v[i]));
    json::law_array_holds_its_values(all, all[i]);
    let members = seq![
        "\"resource_id\":"@ + json::quoted(v[i].resource_id),
        "\"permission\":"@ + json::array(json::all_quoted(v[i].permission)),
    ];
    assert(wire::resource_json(v[i]) == json::object(members));
    json::law_object_holds_its_members(members, members[0]);
    json::law_object_holds_its_members(members, members[1]);
    let names = json::all_quoted(v[i].permission);
    assert(names[j] == json::quoted(v[i].permission[j]));
    json::law_array_holds_its_values(names, names[j]);
}

/// A header says which algorithm and which key, and that what follows is a token.
pub proof fn law_header_names_the_key(kid: Seq<char>, alg: Seq<char>)
    ensures
        text::has_text(wire::header_json(alg, kid), "\"alg\":"@ + json::quoted(alg)),
        text::has_text(wire::header_json(alg, kid), "\"typ\":"@ + json::quoted("JWT"@)),
        text::has_text(wire::header_json(alg, kid), "\"kid\":"@ + json::quoted(kid)),
{
    let members = seq![
        "\"alg\":"@ + json::quoted(alg),
        "\"typ\":"@ + json::quoted("JWT"@),
        "\"kid\":"@ + json::quoted(kid),
    ];
    json::law_object_holds_its_members(members, members[0]);
    json::law_object_holds_its_members(members, members[1]);
    json::law_object_holds_its_members(members, members[2]);
}

/// A public key is written under the names that readers of key sets know its parts by.
pub proof fn law_public_key_is_written(k: RsaJwkView)
    ensures
        text::has_text(wire::jwk_json(k), "\"kty\""@ + ":"@ + json::quoted(k.kty)),
        k.use_.len() > 0 ==> text::has_text(
            wire::jwk_json(k),
            "\"use\""@ + ":"@ + json::quoted(k.use_),
        ),
        text::has_text(wire::jwk_json(k), "\"kid\""@ + ":"@ + json::quoted(k.kid)),
        text::has_text(wire::jwk_json(k), "\"alg\""@ + ":"@ + json::quoted(k.alg)),
        text::has_text(wire::jwk_json(k), "\"n\""@ + ":"@ + json::quoted(k.n)),
        text::has_text(wire::jwk_json(k), "\"e\""@ + ":"@ + json::quoted(k.e)),
{
    let kty = seq!["\"kty\""@ + ":"@ + json::quoted(k.kty)];
    let usage = wire::member_if(k.use_.len() > 0, "\"use\""@ + ":"@ + json::quoted(k.use_));
    let rest = seq![
        "\"kid\""@ + ":"@ + json::quoted(k.kid),
        "\"alg\""@ + ":"@ + json::quoted(k.alg),
        "\"n\""@ + ":"@ + json::quoted(k.n),
        "\"e\""@ + ":"@ + json::quoted(k.e),
    ];
    let two = kty + usage;
    let all = two + rest;
    lemma_first_or_second(kty, usage);
    lemma_first_or_second(two, rest);
    assert(wire::jwk_json(k) == json::object(all));
    assert(two.contains(kty[0]));
    json::law_object_holds_its_members(all, kty[0]);
    if k.use_.len() > 0 {
        assert(usage.contains(usage[0]));
        assert(two.contains(usage[0]));
        json::law_object_holds_its_members(all, usage[0]);
    }
    assert(rest.contains(rest[0]) && rest.contains(rest[1]) && rest.contains(rest[2])
        && rest.contains(rest[3]));
    json::law_object_holds_its_members(all, rest[0]);
    json::law_object_holds_its_members(all, rest[1]);
    json::law_object_holds_its_members(all, rest[2]);
    json::law_object_holds_its_members(all, rest[3]);
}

/// Every key of a set is written in it.
pub proof fn law_key_set_holds_its_keys(set: JwkSetView, i: int)
    requires
        0 <= i < set.keys.len(),
    ensures
        text::has_text(wire::jwks_json(set), wire::jwk_json(set.keys[i])),
{
    let all = Seq::new(set.keys.len(), |k: int| wire::jwk_json(set.keys[k]));
    assert(all[i] == wire::jwk_json(set.keys[i]));
    json::law_array_holds_its_values(all, all[i]);
    let members = seq!["\"keys\":"@ + json::array(all)];
    json::law_object_holds_its_members(members, members[0]);
    text::lemma_text_in_text(
        members[0],
        json::array(all),
        "\"keys\":"@,
        Seq::empty(),
    );
    text::lemma_text_occurs_through(wire::jwks_json(set), members[0], json::array(all));
    text::lemma_text_occurs_through(wire::jwks_json(set), json::array(all), all[i]);
}

/// What is answered to a token is by its claims where they were signed and could be read,
/// and a refusal otherwise.
pub proof fn law_answer_is_by_the_claims(
    payload: Seq<u8>,
    refusal: CoreErrorView,
    claims: LoreClaimsView,
    wanted: VerifyOptionsView,
    now: Moment,
)
    ensures
        signer::verification(Err(refusal), Some(claims), wanted, now) == Err::<
            VerifiedTokenView,
            _,
        >(refusal),
        signer::verification(Ok(payload), None, wanted, now) == Err::<VerifiedTokenView, _>(
            CoreErrorView::Unauthenticated,
        ),
        issue::objection(claims, wanted, now) is Some ==> signer::verification(
            Ok(payload),
            Some(claims),
            wanted,
            now,
        ) == Err::<VerifiedTokenView, _>(CoreErrorView::Unauthenticated),
        issue::objection(claims, wanted, now) is None ==> (signer::verification(
            Ok(payload),
            Some(claims),
            wanted,
            now,
        ) matches Ok(v) && v.subject == claims.subject && v.jti == claims.jti && v.idp
            == claims.idp && v.audience == claims.audience && v.expires_at == claims.expires_at),
{
}

/// A token that is only read, not verified, must have three parts; its header is in the
/// first and its claims are in the second.
pub proof fn law_unverified_token_is_read_by_its_parts(compact: Seq<char>)
    ensures
        ({
            let parts = text::split_on(compact, '.');
            let read = wire::decoded_insecure(compact);
            &&& parts.len() != 3 ==> read == Err::<rs256::DecodedInsecureView, _>(
                ErrorView::InvalidCompact,
            )
            &&& parts.len() == 3 ==> (read is Ok <==> wire::part_json(parts[0]) is Ok
                && wire::part_json(parts[1]) is Ok)
            &&& read matches Ok(d) ==> wire::part_json(parts[0]) == Ok::<_, ErrorView>(d.header)
                && wire::part_json(parts[1]) == Ok::<_, ErrorView>(d.claims)
        }),
        forall|part: Seq<char>, raw: Seq<u8>|
            encoding::base64url_decoded(part) == Ok::<Seq<u8>, Seq<char>>(raw) && #[trigger]
                wire::json_read(raw) is Ok ==> #[trigger] wire::part_json(part) == Ok::<
                _,
                ErrorView,
            >(wire::json_read(raw)->Ok_0),
        forall|part: Seq<char>|
            encoding::base64url_decoded(part) is Err ==> (#[trigger] wire::part_json(part)) is Err,
{
}

/// A key set that is written to be read by people has every key in it, with all its parts.
pub proof fn law_pretty_key_set_holds_its_keys(set: JwkSetView, i: int)
    requires
        0 <= i < set.keys.len(),
    ensures
        text::has_text(wire::pretty_jwks(set), wire::pretty_jwk(set.keys[i])),
        text::has_text(
            wire::pretty_jwk(set.keys[i]),
            "\"kid\""@ + ": "@ + json::quoted(set.keys[i].kid),
        ),
        text::has_text(
            wire::pretty_jwk(set.keys[i]),
            "\"n\""@ + ": "@ + json::quoted(set.keys[i].n),
        ),
        text::has_text(
            wire::pretty_jwk(set.keys[i]),
            "\"e\""@ + ": "@ + json::quoted(set.keys[i].e),
        ),
{
    let all = Seq::new(set.keys.len(), |k: int| wire::pretty_jwk(set.keys[k]));
    assert(all[i] == wire::pretty_jwk(set.keys[i]));
    let inside = text::joined(all, ",\n    "@);
    text::lemma_part_occurs(all, ",\n    "@, all[i]);
    text::lemma_text_in_text(
        wire::pretty_jwks(set),
        inside,
        "{\n  \"keys\": [\n    "@,
        "\n  ]\n}"@,
    );
    text::lemma_text_occurs_through(wire::pretty_jwks(set), inside, all[i]);
    let k = set.keys[i];
    let kty = seq!["\"kty\""@ + ": "@ + json::quoted(k.kty)];
    let usage = wire::member_if(k.use_.len() > 0, "\"use\""@ + ": "@ + json::quoted(k.use_));
    let rest = seq![
        "\"kid\""@ + ": "@ + json::quoted(k.kid),
        "\"alg\""@ + ": "@ + json::quoted(k.alg),
        "\"n\""@ + ": "@ + json::quoted(k.n),
        "\"e\""@ + ": "@ + json::quoted(k.e),
    ];
    let members = kty + usage + rest;
    lemma_first_or_second(kty + usage, rest);
    assert(members == wire::jwk_members(k, ": "@));
    let listed = text::joined(members, ",\n      "@);
    text::lemma_text_in_text(wire::pretty_jwk(k), listed, "{\n      "@, "\n    }"@);
    assert(rest.contains(rest[0]) && rest.contains(rest[2]) && rest.contains(rest[3]));
    text::lemma_part_occurs(members, ",\n      "@, rest[0]);
    text::lemma_part_occurs(members, ",\n      "@, rest[2]);
    text::lemma_part_occurs(members, ",\n      "@, rest[3]);
    text::lemma_text_occurs_through(wire::pretty_jwk(k), listed, rest[0]);
    text::lemma_text_occurs_through(wire::pretty_jwk(k), listed, rest[2]);
    text::lemma_text_occurs_through(wire::pretty_jwk(k), listed, rest[3]);
}

/// Errors are told apart by what they say of the value that was met.
pub proof fn law_errors_say_what_was_met(s: Seq<char>)
    ensures
        text::has_text(
            rs256::message_of(ErrorView::UnexpectedIssuer(s)),
            "unexpected issuer "@ + text::debug_quoted(s),
        ),
        text::has_text(
            rs256::message_of(ErrorView::AudienceNotPresent(s)),
            text::debug_quoted(s) + " not present"@,
        ),
        text::has_text(
            rs256::message_of(ErrorView::UnexpectedAlgorithm(s)),
            "unexpected alg "@ + text::debug_quoted(s),
        ),
        text::has_text(
            rs256::message_of(ErrorView::UnexpectedKid(s)),
            "unexpected kid "@ + text::debug_quoted(s),
        ),
        text::has_text(rs256::message_of(ErrorView::Crypto(s)), s),
{
    reveal_strlit("token: ");
    reveal_strlit("token: unexpected issuer ");
    reveal_strlit("unexpected issuer ");
    reveal_strlit("token: audience ");
    reveal_strlit("token: unexpected alg ");
    reveal_strlit("unexpected alg ");
    reveal_strlit("token: unexpected kid ");
    reveal_strlit("unexpected kid ");
    let q = text::debug_quoted(s);
    text::lemma_text_in_text(
        rs256::message_of(ErrorView::UnexpectedIssuer(s)),
        "unexpected issuer "@ + q,
        "token: "@,
        Seq::empty(),
    );
    text::lemma_text_in_text(
        rs256::message_of(ErrorView::AudienceNotPresent(s)),
        q + " not present"@,
        "token: audience "@,
        Seq::empty(),
    );
    text::lemma_text_in_text(
        rs256::message_of(ErrorView::UnexpectedAlgorithm(s)),
        "unexpected alg "@ + q,
        "token: "@,
        Seq::empty(),
    );
    text::lemma_text_in_text(
        rs256::message_of(ErrorView::UnexpectedKid(s)),
        "unexpected kid "@ + q,
        "token: "@,
        Seq::empty(),
    );
    text::lemma_text_in_text(rs256::message_of(ErrorView::Crypto(s)), s, "token: "@, Seq::empty());
}

/// A token that is signed has three parts: the header that names the key, the claims, and
/// the signature over the two. It can be made exactly if the key can sign.
pub proof fn law_token_is_header_claims_and_signature(
    key: SigningKeyView,
    claims: LoreClaimsView,
    signature: Seq<u8>,
)
    ensures
        ({
            let head = encoding::base64url(
                vstd::utf8::encode_utf8(wire::header_json(key.alg, key.kid)),
            );
            let body = encoding::base64url(vstd::utf8::encode_utf8(wire::claims_json(claims)));
            let signed = keys::rs256_signed(
                key.der,
                vstd::utf8::encode_utf8(head + "."@ + body),
            );
            &&& signed == Ok::<_, Seq<char>>(signature) ==> key.signed(claims) == Ok::<
                _,
                ErrorView,
            >(head + "."@ + body + "."@ + encoding::base64url(signature))
            &&& signed is Err ==> key.signed(claims) is Err
        }),
{
}

/// What is asked for and done to make a key: its name is looked up, it is written under
/// its name in a file of its own, and it is recorded. A request that is refused asks for
/// nothing.
pub proof fn law_key_is_made_step_by_step(
    kid: Seq<char>,
    alg: Seq<char>,
    bits: u32,
    key: SigningKeyView,
    pem: Seq<char>,
    path: Seq<char>,
    meta: SigningKeyMetaView,
)
    requires
        keys::pkcs8_pem(key.der) == Ok::<_, Seq<char>>(pem),
    ensures
        admin::request_objection(kid, alg) is None ==> making::first_turn(kid, alg, bits)
            == making::KeyTurnView::Ask(
            making::KeyStateView::Naming { kid, bits },
            making::KeyActionView::Find(kid),
        ),
        admin::request_objection(kid, alg) is Some ==> making::first_turn(kid, alg, bits)
            == making::KeyTurnView::Refuse(admin::request_objection(kid, alg)->0),
        making::turn(
            making::KeyStateView::Naming { kid, bits },
            making::KeyEventView::Found(Err(CoreErrorView::NotFound)),
            Ok(key),
        ) == making::KeyTurnView::Ask(
            making::KeyStateView::Writing(key),
            making::KeyActionView::Write { file: key.kid + ".pem"@, pem },
        ),
        making::turn(
            making::KeyStateView::Naming { kid, bits },
            making::KeyEventView::Found(Ok(meta)),
            Ok(key),
        ) is Refuse,
        making::turn(
            making::KeyStateView::Recording(path),
            making::KeyEventView::Recorded(Ok(meta)),
            Ok(key),
        ) == making::KeyTurnView::Finish(meta),
{
}

/// A key is read from bytes where they are a text, under the name that it is given.
pub proof fn law_key_is_read_from_bytes(kid: Seq<char>, raw: Seq<u8>)
    ensures
        kid.len() == 0 ==> keys::named_key_of(kid, raw) == Err::<SigningKeyView, _>(
            ErrorView::MissingKid,
        ),
        kid.len() > 0 && vstd::utf8::valid_utf8(raw) ==> keys::named_key_of(kid, raw)
            == keys::named_key_in(kid, vstd::utf8::decode_utf8(raw)),
        kid.len() > 0 && !vstd::utf8::valid_utf8(raw) ==> keys::named_key_of(kid, raw) is Err,
{
}

/// A request that names an issuer, an audience, a subject and a provider, and for
/// repositories a resource, is signed as long as the key can sign and the time fits.
pub proof fn law_good_request_is_signed(
    login: AuthnTokenInputView,
    access: AuthzTokenInputView,
    jti: Seq<char>,
    now: Moment,
    start: Span,
)
    requires
        now == Moment::SinceEpoch(start),
        start.wf(),
        login.ttl.wf(),
        access.ttl.wf(),
        start.secs + login.ttl.secs + 3600 < i64::MAX,
        start.secs + access.ttl.secs + 3600 < i64::MAX,
    ensures
        login.issuer.len() > 0 && login.audience.len() > 0 && login.subject.len() > 0
            && login.idp.len() > 0 ==> issue::authn_claims(
            signer::authn_options(login, jti),
            now,
        ) is Ok,
        access.issuer.len() > 0 && access.audience.len() > 0 && access.subject.len() > 0
            && access.idp.len() > 0 && access.resources.len() > 0 ==> issue::authz_claims(
            signer::authz_options(access, jti),
            now,
        ) is Ok,
        issue::authn_claims(signer::authn_options(login, jti), now) matches Ok(c) ==> {
            &&& c.issued_at == start.secs
            &&& login.ttl.secs == 0 && login.ttl.nanos == 0 ==> c.expires_at == start.secs + 3600
            &&& login.ttl.secs > 0 && login.ttl.nanos == 0 ==> c.expires_at == start.secs
                + login.ttl.secs
        },
        issue::authz_claims(signer::authz_options(access, jti), now) matches Ok(c) ==> {
            &&& c.issued_at == start.secs
            &&& access.ttl.secs == 0 && access.ttl.nanos == 0 ==> c.expires_at == start.secs + 3600
            &&& access.ttl.secs > 0 && access.ttl.nanos == 0 ==> c.expires_at == start.secs
                + access.ttl.secs
        },
{
}

/// Where the claims cannot be made, nothing is signed and the reason is said; where the
/// key cannot sign, that is said.
pub proof fn law_what_is_not_signed(
    r: Result<SignedTokenView, CoreErrorView>,
    key: SigningKeyView,
    e: ErrorView,
    claims: LoreClaimsView,
    resource: (Seq<char>, Seq<Permission>),
)
    ensures
        signer::is_signing(r, key, Err(e), resource) ==> r == Err::<SignedTokenView, _>(
            CoreErrorView::InvalidArgument(rs256::message_of(e)),
        ),
        signer::is_signing(r, key, Ok(claims), resource) && key.signed(claims) is Err ==> r
            == Err::<SignedTokenView, _>(CoreErrorView::SigningKeyUnavailable),
{
}

} // verus!
