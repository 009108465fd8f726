//! Tokens and keys as they are written: JSON in the URL-safe base64 alphabet,
//! three parts with dots between them.

use vstd::prelude::*;

use crate::encoding;
use crate::encoding::{base64url_decode, base64url_encode, bytes_of};
use crate::json;
use crate::json::{
    array_text, number_text, object_text, quote, quote_all, text_member, truth_text,
};
use crate::order;
use crate::rs256;
use crate::rs256::{
    crypto, DecodedInsecure, DecodedInsecureView, Error, ErrorView, JwkSet, JwkSetView, LoreClaims,
    LoreClaimsView, LoreResourcePermission, LoreResourcePermissionView, RsaJwk, RsaJwkView,
};
use crate::text;
use crate::text::{cat2, cat3, join, split};

verus! {

/// The header of a token, as JSON.
pub open spec fn header_json(alg: Seq<char>, kid: Seq<char>) -> Seq<char> {
    json::object(
        seq![
            "\"alg\":"@ + json::quoted(alg),
            "\"typ\":"@ + json::quoted("JWT"@),
            "\"kid\":"@ + json::quoted(kid),
        ],
    )
}

/// A permission on a resource, as JSON.
pub open spec fn resource_json(r: LoreResourcePermissionView) -> Seq<char> {
    json::object(
        seq![
            "\"resource_id\":"@ + json::quoted(r.resource_id),
            "\"permission\":"@ + json::array(json::all_quoted(r.permission)),
        ],
    )
}

/// Permissions on resources, as JSON.
pub open spec fn resources_json(v: Seq<LoreResourcePermissionView>) -> Seq<char> {
    json::array(Seq::new(v.len(), |i: int| resource_json(v[i])))
}

/// The member, where it is written at all.
pub open spec fn member_if(written: bool, member: Seq<char>) -> Seq<Seq<char>> {
    if written {
        seq![member]
    } else {
        Seq::empty()
    }
}

/// The claims of a token, as JSON: the order of the members is part of the
/// format, and what is empty is left out where it can be.
pub open spec fn claims_json(c: LoreClaimsView) -> Seq<char> {
    json::object(
        seq![
            "\"sub\":"@ + json::quoted(c.subject),
            "\"iss\":"@ + json::quoted(c.issuer),
            "\"iat\":"@ + json::number(c.issued_at),
            "\"exp\":"@ + json::number(c.expires_at),
            "\"aud\":"@ + json::array(json::all_quoted(c.audience)),
            "\"env\":"@ + json::quoted(c.env),
            "\"name\":"@ + json::quoted(c.name),
            "\"preferred_username\":"@ + json::quoted(c.preferred_username),
        ] + member_if(c.resources.len() > 0, "\"resources\":"@ + resources_json(c.resources))
            + member_if(
            c.groups.len() > 0,
            "\"groups\":"@ + json::array(json::all_quoted(c.groups)),
        ) + member_if(
            c.is_service_account is Some,
            "\"is_service_account\":"@ + json::truth(c.is_service_account->0),
        ) + seq!["\"idp\":"@ + json::quoted(c.idp)] + member_if(
            c.jti.len() > 0,
            "\"jti\":"@ + json::quoted(c.jti),
        ),
    )
}

/// The members of a public key, as JSON, with `colon` between name and value.
pub open spec fn jwk_members(k: RsaJwkView, colon: Seq<char>) -> Seq<Seq<char>> {
    seq!["\"kty\""@ + colon + json::quoted(k.kty)] + member_if(
        k.use_.len() > 0,
        "\"use\""@ + colon + json::quoted(k.use_),
    ) + seq![
        "\"kid\""@ + colon + json::quoted(k.kid),
        "\"alg\""@ + colon + json::quoted(k.alg),
        "\"n\""@ + colon + json::quoted(k.n),
        "\"e\""@ + colon + json::quoted(k.e),
    ]
}

/// A public key, as JSON.
pub open spec fn jwk_json(k: RsaJwkView) -> Seq<char> {
    json::object(jwk_members(k, ":"@))
}

/// A set of public keys, as JSON.
pub open spec fn jwks_json(set: JwkSetView) -> Seq<char> {
    json::object(
        seq!["\"keys\":"@ + json::array(Seq::new(set.keys.len(), |i: int| jwk_json(set.keys[i])))],
    )
}

/// A public key as indented JSON, three levels deep.
pub open spec fn pretty_jwk(k: RsaJwkView) -> Seq<char> {
    "{\n      "@ + text::joined(jwk_members(k, ": "@), ",\n      "@) + "\n    }"@
}

/// A set of public keys as indented JSON.
pub open spec fn pretty_jwks(set: JwkSetView) -> Seq<char> {
    if set.keys.len() == 0 {
        "{\n  \"keys\": []\n}"@
    } else {
        "{\n  \"keys\": [\n    "@ + text::joined(
            Seq::new(set.keys.len(), |i: int| pretty_jwk(set.keys[i])),
            ",\n    "@,
        ) + "\n  ]\n}"@
    }
}

/// Some text as a part of a token.
pub open spec fn part(json: Seq<char>) -> Seq<char> {
    encoding::base64url(vstd::utf8::encode_utf8(json))
}

/// What is signed of a token.
pub open spec fn signing_input(header: Seq<char>, claims: Seq<char>) -> Seq<char> {
    header + "."@ + claims
}

/// The header of a token, as JSON.
pub fn header_text(alg: &str, kid: &str) -> (r: String)
    ensures
        r@ == header_json(alg@, kid@),
{
    let mut members: Vec<String> = Vec::new();
    members.push(text_member("\"alg\":", alg));
    members.push(text_member("\"typ\":", "JWT"));
    members.push(text_member("\"kid\":", kid));
    assert(text::texts(members@) =~= seq![
        "\"alg\":"@ + json::quoted(alg@),
        "\"typ\":"@ + json::quoted("JWT"@),
        "\"kid\":"@ + json::quoted(kid@),
    ]);
    object_text(&members)
}

fn resource_text(r: &LoreResourcePermission) -> (t: String)
    ensures
        t@ == resource_json(r@),
{
    let mut members: Vec<String> = Vec::new();
    members.push(text_member("\"resource_id\":", r.resource_id.as_str()));
    members.push(cat2("\"permission\":", array_text(&quote_all(&r.permission)).as_str()));
    assert(text::texts(members@) =~= seq![
        "\"resource_id\":"@ + json::quoted(r@.resource_id),
        "\"permission\":"@ + json::array(json::all_quoted(r@.permission)),
    ]);
    object_text(&members)
}

fn resources_text(v: &Vec<LoreResourcePermission>) -> (r: String)
    ensures
        r@ == resources_json(order::views(v@)),
{
    let mut values: Vec<String> = Vec::new();
    let mut i: usize = 0;
    while i < v.len()
        invariant
            i <= v@.len(),
            values@.len() == i,
            forall|j: int| 0 <= j < i ==> (#[trigger] values@[j])@ == resource_json(v@[j]@),
        decreases v@.len() - i,
    {
        values.push(resource_text(&v[i]));
        i += 1;
    }
    assert(text::texts(values@) =~= Seq::new(
        order::views(v@).len(),
        |i: int| resource_json(order::views(v@)[i]),
    ));
    array_text(&values)
}

/// The claims of a token, as JSON.
pub fn claims_text(c: &LoreClaims) -> (r: String)
    ensures
        r@ == claims_json(c@),
{
    let mut members: Vec<String> = Vec::new();
    members.push(text_member("\"sub\":", c.subject.as_str()));
    members.push(text_member("\"iss\":", c.issuer.as_str()));
    members.push(cat2("\"iat\":", number_text(c.issued_at).as_str()));
    members.push(cat2("\"exp\":", number_text(c.expires_at).as_str()));
    members.push(cat2("\"aud\":", array_text(&quote_all(&c.audience)).as_str()));
    members.push(text_member("\"env\":", c.env.as_str()));
    members.push(text_member("\"name\":", c.name.as_str()));
    members.push(text_member("\"preferred_username\":", c.preferred_username.as_str()));
    let ghost first = text::texts(members@);
    assert(first =~= seq![
        "\"sub\":"@ + json::quoted(c@.subject),
        "\"iss\":"@ + json::quoted(c@.issuer),
        "\"iat\":"@ + json::number(c@.issued_at),
        "\"exp\":"@ + json::number(c@.expires_at),
        "\"aud\":"@ + json::array(json::all_quoted(c@.audience)),
        "\"env\":"@ + json::quoted(c@.env),
        "\"name\":"@ + json::quoted(c@.name),
        "\"preferred_username\":"@ + json::quoted(c@.preferred_username),
    ]);
    if c.resources.len() > 0 {
        members.push(cat2("\"resources\":", resources_text(&c.resources).as_str()));
    }
    let ghost second = first + member_if(
        c@.resources.len() > 0,
        "\"resources\":"@ + resources_json(c@.resources),
    );
    assert(text::texts(members@) =~= second);
    if c.groups.len() > 0 {
        members.push(cat2("\"groups\":", array_text(&quote_all(&c.groups)).as_str()));
    }
    let ghost third = second + member_if(
        c@.groups.len() > 0,
        "\"groups\":"@ + json::array(json::all_quoted(c@.groups)),
    );
    assert(text::texts(members@) =~= third);
    if let Some(b) = c.is_service_account {
        members.push(cat2("\"is_service_account\":", truth_text(b).as_str()));
    }
    let ghost fourth = third + member_if(
        c@.is_service_account is Some,
        "\"is_service_account\":"@ + json::truth(c@.is_service_account->0),
    );
    assert(text::texts(members@) =~= fourth);
    members.push(text_member("\"idp\":", c.idp.as_str()));
    let ghost fifth = fourth + seq!["\"idp\":"@ + json::quoted(c@.idp)];
    assert(text::texts(members@) =~= fifth);
    if !c.jti.is_empty() {
        members.push(text_member("\"jti\":", c.jti.as_str()));
    }
    assert(text::texts(members@) =~= fifth + member_if(
        c@.jti.len() > 0,
        "\"jti\":"@ + json::quoted(c@.jti),
    ));
    object_text(&members)
}

fn jwk_member_texts(k: &RsaJwk, colon: &str) -> (r: Vec<String>)
    ensures
        text::texts(r@) == jwk_members(k@, colon@),
{
    let mut members: Vec<String> = Vec::new();
    members.push(cat3("\"kty\"", colon, quote(k.kty.as_str()).as_str()));
    if !k.use_.is_empty() {
        members.push(cat3("\"use\"", colon, quote(k.use_.as_str()).as_str()));
    }
    members.push(cat3("\"kid\"", colon, quote(k.kid.as_str()).as_str()));
    members.push(cat3("\"alg\"", colon, quote(k.alg.as_str()).as_str()));
    members.push(cat3("\"n\"", colon, quote(k.n.as_str()).as_str()));
    members.push(cat3("\"e\"", colon, quote(k.e.as_str()).as_str()));
    assert(text::texts(members@) =~= jwk_members(k@, colon@));
    members
}

/// A public key, as JSON.
pub fn jwk_text(k: &RsaJwk) -> (r: String)
    ensures
        r@ == jwk_json(k@),
{
    object_text(&jwk_member_texts(k, ":"))
}

/// A set of public keys, as JSON.
pub fn jwks_text(set: &JwkSet) -> (r: String)
    ensures
        r@ == jwks_json(set@),
{
    let mut values: Vec<String> = Vec::new();
    let mut i: usize = 0;
    while i < set.keys.len()
        invariant
            i <= set.keys@.len(),
            values@.len() == i,
            forall|j: int| 0 <= j < i ==> (#[trigger] values@[j])@ == jwk_json(set.keys@[j]@),
        decreases set.keys@.len() - i,
    {
        values.push(jwk_text(&set.keys[i]));
        i += 1;
    }
    assert(text::texts(values@) =~= Seq::new(set@.keys.len(), |i: int| jwk_json(set@.keys[i])));
    let mut members: Vec<String> = Vec::new();
    members.push(cat2("\"keys\":", array_text(&values).as_str()));
    assert(text::texts(members@) =~= seq![
        "\"keys\":"@ + json::array(Seq::new(set@.keys.len(), |i: int| jwk_json(set@.keys[i]))),
    ]);
    object_text(&members)
}

/// A set of public keys as indented JSON.
pub fn marshal_jwks(set: &JwkSet) -> (r: Result<Vec<u8>, Error>)
    ensures
        r matches Ok(bytes) && bytes@ == vstd::utf8::encode_utf8(pretty_jwks(set@)),
{
    if set.keys.len() == 0 {
        return Ok(bytes_of("{\n  \"keys\": []\n}"));
    }
    let mut values: Vec<String> = Vec::new();
    let mut i: usize = 0;
    while i < set.keys.len()
        invariant
            i <= set.keys@.len(),
            values@.len() == i,
            forall|j: int| 0 <= j < i ==> (#[trigger] values@[j])@ == pretty_jwk(set.keys@[j]@),
        decreases set.keys@.len() - i,
    {
        let inner = join(&jwk_member_texts(&set.keys[i], ": "), ",\n      ");
        values.push(cat3("{\n      ", inner.as_str(), "\n    }"));
        i += 1;
    }
    assert(text::texts(values@) =~= Seq::new(set@.keys.len(), |i: int| pretty_jwk(set@.keys[i])));
    let inner = join(&values, ",\n    ");
    Ok(bytes_of(cat3("{\n  \"keys\": [\n    ", inner.as_str(), "\n  ]\n}").as_str()))
}

/// Some text as a part of a token.
pub fn encode_part(json: &str) -> (r: String)
    ensures
        r@ == part(json@),
        encoding::is_base64url_text(r@),
        encoding::reads_as(r@, vstd::utf8::encode_utf8(json@)),
{
    base64url_encode(json.as_bytes())
}

/// The token with this signature, or why there is none.
pub fn compact_from(signing_input: &str, signature: Result<String, String>) -> (r: Result<
    String,
    Error,
>)
    ensures
        match (r, signature) {
            (Ok(token), Ok(s)) => token@ == signing_input@ + "."@ + s@,
            (Err(e), Err(m)) => e@ == ErrorView::Crypto("sign JWT: "@ + m@),
            _ => false,
        },
{
    match signature {
        Ok(s) => Ok(cat3(signing_input, ".", s.as_str())),
        Err(m) => Err(crypto("sign JWT: ", m.as_str())),
    }
}

/// The three parts of a token.
pub fn split_compact(compact: &str) -> (r: Result<Vec<String>, Error>)
    ensures
        match r {
            Ok(parts) => parts@.len() == 3 && text::texts(parts@) == text::split_on(compact@, '.'),
            Err(e) => e@ == ErrorView::InvalidCompact && text::split_on(compact@, '.').len() != 3,
        },
{
    let parts = split(compact, '.');
    assert(text::texts(parts@).len() == parts@.len());
    if parts.len() != 3 {
        return Err(Error::InvalidCompact);
    }
    Ok(parts)
}

/// A JSON text without what does not matter in it, or what is wrong with the bytes.
pub uninterp spec fn json_read(raw: Seq<u8>) -> Result<Seq<char>, Seq<char>>;

/// `serde_json::from_slice` to a `serde_json::Value`, written again by its
/// `Display` impl: the text, or that of the error, depends on the bytes alone.
#[verifier::external_body]
pub(crate) fn read_json(raw: &Vec<u8>) -> (r: Result<String, String>)
    ensures
        match r {
            Ok(s) => json_read(raw@) matches Ok(t) && t == s@,
            Err(e) => json_read(raw@) matches Err(m) && m == e@,
        },
{
    serde_json::from_slice::<serde_json::Value>(raw).map(|v| v.to_string()).map_err(|e| e.to_string())
}

/// What a part of a token holds, by what the outside makes of it.
pub open spec fn part_read(
    decoded: Result<Seq<u8>, Seq<char>>,
    read: Result<Seq<char>, Seq<char>>,
) -> Result<Seq<char>, ErrorView> {
    match decoded {
        Err(m) => Err(ErrorView::Crypto("decode JWT part: "@ + m)),
        Ok(_) => match read {
            Err(m) => Err(ErrorView::Crypto("parse JWT part: "@ + m)),
            Ok(s) => Ok(s),
        },
    }
}

/// The JSON text in a part of a token.
pub open spec fn part_json(encoded: Seq<char>) -> Result<Seq<char>, ErrorView> {
    let decoded = encoding::base64url_decoded(encoded);
    part_read(decoded, json_read(decoded->Ok_0))
}

/// What a token says, without any check of its signature.
pub open spec fn decoded_insecure(compact: Seq<char>) -> Result<DecodedInsecureView, ErrorView> {
    let parts = text::split_on(compact, '.');
    if parts.len() != 3 {
        Err(ErrorView::InvalidCompact)
    } else {
        match part_json(parts[0]) {
            Err(e) => Err(e),
            Ok(header) => match part_json(parts[1]) {
                Err(e) => Err(e),
                Ok(claims) => Ok(DecodedInsecureView { header, claims }),
            },
        }
    }
}

/// The JSON text of what was read, or the error.
pub fn part_from(read: Result<String, String>) -> (r: Result<String, Error>)
    ensures
        match (r, read) {
            (Ok(s), Ok(t)) => s@ == t@,
            (Err(e), Err(m)) => e@ == ErrorView::Crypto("parse JWT part: "@ + m@),
            _ => false,
        },
{
    match read {
        Ok(s) => Ok(s),
        Err(m) => Err(crypto("parse JWT part: ", m.as_str())),
    }
}

/// The JSON text in a part of a token.
pub fn decode_json_part(encoded: &str) -> (r: Result<String, Error>)
    ensures
        rs256::outcome(r) == part_json(encoded@),
{
    match base64url_decode(encoded) {
        Err(m) => Err(crypto("decode JWT part: ", m.as_str())),
        Ok(raw) => part_from(read_json(&raw)),
    }
}

/// What a token says, without any check of its signature.
pub fn decode_insecure(compact: &str) -> (r: Result<DecodedInsecure, Error>)
    ensures
        rs256::outcome(r) == decoded_insecure(compact@),
{
    let parts = match split_compact(compact) {
        Ok(parts) => parts,
        Err(e) => return Err(e),
    };
    assert(text::texts(parts@)[0] == parts@[0]@);
    assert(text::texts(parts@)[1] == parts@[1]@);
    let header = match decode_json_part(parts[0].as_str()) {
        Ok(s) => s,
        Err(e) => return Err(e),
    };
    let claims = match decode_json_part(parts[1].as_str()) {
        Ok(s) => s,
        Err(e) => return Err(e),
    };
    Ok(DecodedInsecure { header, claims })
}

} // verus!
