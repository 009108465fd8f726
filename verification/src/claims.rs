//! The claims of an identity token.

use vstd::prelude::*;

use crate::encoding;
use crate::encoding::base64url_decode;
use crate::error::{invalid, CoreError, CoreErrorView};
use crate::text;
use crate::text::{cat2, same, same_ignoring_case, split};

verus! {

/// What a claim says.
#[derive(Debug, PartialEq, Eq)]
pub enum ClaimValue {
    Text(String),
    Flag(bool),
    /// Anything else: it is not looked at.
    Other,
}

/// The view of [`ClaimValue`].
pub enum ClaimValueView {
    Text(Seq<char>),
    Flag(bool),
    Other,
}

impl View for ClaimValue {
    type V = ClaimValueView;

    open spec fn view(&self) -> ClaimValueView {
        match self {
            ClaimValue::Text(s) => ClaimValueView::Text(s@),
            ClaimValue::Flag(b) => ClaimValueView::Flag(*b),
            ClaimValue::Other => ClaimValueView::Other,
        }
    }
}

/// A claim and its name.
#[derive(Debug, PartialEq, Eq)]
pub struct Claim {
    pub name: String,
    pub value: ClaimValue,
}

impl View for Claim {
    type V = (Seq<char>, ClaimValueView);

    open spec fn view(&self) -> (Seq<char>, ClaimValueView) {
        (self.name@, self.value@)
    }
}

/// The names and values of claims.
pub open spec fn claims_of(v: Seq<Claim>) -> Seq<(Seq<char>, ClaimValueView)> {
    Seq::new(v.len(), |i: int| v[i]@)
}

/// The members of a JSON object, each name once; none where the bytes are JSON
/// but no object; or what is wrong with the bytes.
pub uninterp spec fn json_members(raw: Seq<u8>) -> Result<
    Option<Seq<(Seq<char>, ClaimValueView)>>,
    Seq<char>,
>;

/// `serde_json::from_slice` to a `serde_json::Value`: the members of the object,
/// or the text of the error, depend on the bytes alone. Numbers, arrays, objects
/// and null are not told apart.
#[verifier::external_body]
fn parse_members(raw: &Vec<u8>) -> (r: Result<Option<Vec<Claim>>, String>)
    ensures
        match r {
            Ok(Some(claims)) => json_members(raw@) matches Ok(Some(m)) && m == claims_of(claims@),
            Ok(None) => json_members(raw@) matches Ok(None),
            Err(e) => json_members(raw@) matches Err(m) && m == e@,
        },
{
    let value: serde_json::Value = serde_json::from_slice(raw).map_err(|e| e.to_string())?;
    let convert = |(name, value): (&String, &serde_json::Value)| Claim {
        name: name.clone(),
        value: match value {
            serde_json::Value::String(s) => ClaimValue::Text(s.clone()),
            serde_json::Value::Bool(b) => ClaimValue::Flag(*b),
            serde_json::Value::Null => ClaimValue::Other,
            serde_json::Value::Number(_) => ClaimValue::Other,
            serde_json::Value::Array(_) => ClaimValue::Other,
            serde_json::Value::Object(_) => ClaimValue::Other,
        },
    };
    Ok(value.as_object().map(|object| object.iter().map(convert).collect()))
}

/// The claim of that name.
pub open spec fn claim_named(claims: Seq<(Seq<char>, ClaimValueView)>, name: Seq<char>) -> Option<
    ClaimValueView,
>
    decreases claims.len(),
{
    if claims.len() == 0 {
        None
    } else if claims[0].0 == name {
        Some(claims[0].1)
    } else {
        claim_named(claims.skip(1), name)
    }
}

/// The text of a claim; empty where there is no such claim or it is no text.
pub open spec fn text_claim(claims: Seq<(Seq<char>, ClaimValueView)>, name: Seq<char>) -> Seq<char> {
    match claim_named(claims, name) {
        Some(ClaimValueView::Text(s)) => s,
        _ => Seq::empty(),
    }
}

/// Whether a claim says yes: `true`, or a text that says so.
pub open spec fn yes_claim(claims: Seq<(Seq<char>, ClaimValueView)>, name: Seq<char>) -> bool {
    match claim_named(claims, name) {
        Some(ClaimValueView::Flag(b)) => b,
        Some(ClaimValueView::Text(s)) => text::lower(text::trimmed(s)) == text::lower("true"@),
        _ => false,
    }
}

fn find_claim<'a>(claims: &'a Vec<Claim>, name: &str) -> (r: Option<&'a ClaimValue>)
    ensures
        match r {
            Some(v) => claim_named(claims_of(claims@), name@) == Some(v@),
            None => claim_named(claims_of(claims@), name@) is None,
        },
{
    let ghost all = claims_of(claims@);
    let mut i: usize = 0;
    assert(all.skip(0) =~= all);
    while i < claims.len()
        invariant
            i <= claims@.len(),
            all == claims_of(claims@),
            claim_named(all, name@) == claim_named(all.skip(i as int), name@),
        decreases claims@.len() - i,
    {
        assert(all.skip(i as int)[0] == claims@[i as int]@);
        if same(claims[i].name.as_str(), name) {
            return Some(&claims[i].value);
        }
        assert(all.skip(i as int).skip(1) =~= all.skip(i + 1));
        i += 1;
    }
    None
}

/// The text of a claim.
pub fn string_claim(claims: &Vec<Claim>, name: &str) -> (r: String)
    ensures
        r@ == text_claim(claims_of(claims@), name@),
{
    match find_claim(claims, name) {
        Some(ClaimValue::Text(s)) => s.clone(),
        _ => {
            let none = String::new();
            assert(none@ =~= Seq::<char>::empty());
            none
        },
    }
}

/// Whether a claim says yes.
pub fn bool_claim(claims: &Vec<Claim>, name: &str) -> (r: bool)
    ensures
        r == yes_claim(claims_of(claims@), name@),
{
    match find_claim(claims, name) {
        Some(ClaimValue::Flag(b)) => *b,
        Some(ClaimValue::Text(s)) => same_ignoring_case(s.as_str().trim(), "true"),
        _ => false,
    }
}

/// What the middle part of a token holds, by what the outside makes of it.
pub open spec fn payload_claims(
    payload: Option<Seq<char>>,
    decoded: Result<Seq<u8>, Seq<char>>,
    members: Result<Option<Seq<(Seq<char>, ClaimValueView)>>, Seq<char>>,
) -> Result<Seq<(Seq<char>, ClaimValueView)>, CoreErrorView> {
    if payload is None {
        Err(CoreErrorView::InvalidArgument("oidc: malformed id token"@))
    } else {
        match decoded {
            Err(e) => Err(CoreErrorView::InvalidArgument("oidc: decode id token: "@ + e)),
            Ok(_) => match members {
                Err(e) => Err(CoreErrorView::InvalidArgument("oidc: decode id token claims: "@ + e)),
                Ok(None) => Err(
                    CoreErrorView::InvalidArgument("oidc: id token claims must be object"@),
                ),
                Ok(Some(claims)) => Ok(claims),
            },
        }
    }
}

/// The second of the parts of a token between dots.
pub open spec fn payload_of(token: Seq<char>) -> Option<Seq<char>> {
    let parts = text::split_on(token, '.');
    if parts.len() >= 2 {
        Some(parts[1])
    } else {
        None
    }
}

/// The claims of an identity token. The signature is not looked at.
pub open spec fn token_claims(token: Seq<char>) -> Result<
    Seq<(Seq<char>, ClaimValueView)>,
    CoreErrorView,
> {
    let payload = payload_of(token);
    let decoded = encoding::base64url_decoded(payload->0);
    payload_claims(payload, decoded, json_members(decoded->Ok_0))
}

/// Makes the claims of what was parsed, or the error.
pub fn claims_from_members(members: Result<Option<Vec<Claim>>, String>) -> (r: Result<
    Vec<Claim>,
    CoreError,
>)
    ensures
        match (r, members) {
            (Ok(claims), Ok(Some(given))) => claims_of(claims@) == claims_of(given@),
            (Err(e), Ok(None)) => e@ == CoreErrorView::InvalidArgument(
                "oidc: id token claims must be object"@,
            ),
            (Err(e), Err(m)) => e@ == CoreErrorView::InvalidArgument(
                "oidc: decode id token claims: "@ + m@,
            ),
            _ => false,
        },
{
    match members {
        Ok(Some(claims)) => Ok(claims),
        Ok(None) => Err(invalid("oidc: id token claims must be object")),
        Err(e) => Err(invalid(cat2("oidc: decode id token claims: ", e.as_str()).as_str())),
    }
}

/// The claims of an identity token. The signature is not looked at.
pub fn jwt_claims(raw_id_token: &str) -> (r: Result<Vec<Claim>, CoreError>)
    ensures
        match r {
            Ok(claims) => token_claims(raw_id_token@) == Ok::<_, CoreErrorView>(
                claims_of(claims@),
            ),
            Err(e) => token_claims(raw_id_token@) == Err::<Seq<(Seq<char>, ClaimValueView)>, _>(e@),
        },
{
    let parts = split(raw_id_token, '.');
    assert(text::texts(parts@).len() == parts@.len());
    if parts.len() < 2 {
        return Err(invalid("oidc: malformed id token"));
    }
    assert(text::texts(parts@)[1] == parts@[1]@);
    let raw = match base64url_decode(parts[1].as_str()) {
        Ok(raw) => raw,
        Err(e) => {
            return Err(invalid(cat2("oidc: decode id token: ", e.as_str()).as_str()));
        },
    };
    claims_from_members(parse_members(&raw))
}

/// The claim of a name is the first that has it, and there is none exactly if no claim
/// has it.
pub proof fn law_claim_is_the_first_of_its_name(
    claims: Seq<(Seq<char>, ClaimValueView)>,
    name: Seq<char>,
)
    ensures
        claim_named(claims, name) is None <==> forall|j: int|
            0 <= j < claims.len() ==> (#[trigger] claims[j]).0 != name,
        forall|i: int|
            0 <= i < claims.len() && (#[trigger] claims[i]).0 == name && (forall|j: int|
                0 <= j < i ==> (#[trigger] claims[j]).0 != name) ==> claim_named(claims, name)
                == Some(claims[i].1),
        claim_named(claims, name) matches Some(v) ==> exists|i: int|
            {
                &&& 0 <= i < claims.len()
                &&& (#[trigger] claims[i]).0 == name
                &&& claims[i].1 == v
                &&& forall|j: int| 0 <= j < i ==> (#[trigger] claims[j]).0 != name
            },
    decreases claims.len(),
{
    if claims.len() > 0 && claims[0].0 != name {
        let rest = claims.skip(1);
        law_claim_is_the_first_of_its_name(rest, name);
        assert forall|j: int| 0 <= j < rest.len() implies #[trigger] rest[j] == claims[j + 1] by {}
        assert forall|j: int| 0 < j < claims.len() implies #[trigger] claims[j] == rest[j - 1] by {}
        if let Some(v) = claim_named(rest, name) {
            let i = choose|i: int|
                {
                    &&& 0 <= i < rest.len()
                    &&& (#[trigger] rest[i]).0 == name
                    &&& rest[i].1 == v
                    &&& forall|j: int| 0 <= j < i ==> (#[trigger] rest[j]).0 != name
                };
            assert(claims[i + 1].0 == name);
            assert forall|j: int| 0 <= j < i + 1 implies (#[trigger] claims[j]).0 != name by {
                if j > 0 {
                    assert(rest[j - 1].0 != name);
                }
            }
        }
        assert forall|i: int|
            0 <= i < claims.len() && (#[trigger] claims[i]).0 == name && (forall|j: int|
                0 <= j < i ==> (#[trigger] claims[j]).0 != name) implies claim_named(claims, name)
            == Some(claims[i].1) by {
            assert(rest[i - 1].0 == name);
            assert forall|j: int| 0 <= j < i - 1 implies (#[trigger] rest[j]).0 != name by {
                assert(claims[j + 1].0 != name);
            }
        }
    }
}

/// The claims of a token are what its second part holds: they are read exactly if there is
/// one, it is base64, and it holds an object.
pub proof fn law_claims_are_in_the_second_part(
    token: Seq<char>,
    claims: Seq<(Seq<char>, ClaimValueView)>,
)
    ensures
        token_claims(token) == Ok::<_, CoreErrorView>(claims) <==> {
            let parts = text::split_on(token, '.');
            &&& parts.len() >= 2
            &&& encoding::base64url_decoded(parts[1]) matches Ok(raw) && json_members(raw) == Ok::<
                _,
                Seq<char>,
            >(Some(claims))
        },
{
}

/// A claim is a text, or nothing where it is none or not there. It is a yes where it is
/// the boolean `true` or a text that is `true` but for case and whitespace around it.
pub proof fn law_what_a_claim_says(
    claims: Seq<(Seq<char>, ClaimValueView)>,
    name: Seq<char>,
    t: Seq<char>,
)
    ensures
        claim_named(claims, name) == Some(ClaimValueView::Text(t)) ==> text_claim(claims, name) == t,
        !(claim_named(claims, name) is Some && claim_named(claims, name)->0 is Text) ==> text_claim(
            claims,
            name,
        ).len() == 0,
        claim_named(claims, name) is None ==> !yes_claim(claims, name),
        claim_named(claims, name) == Some(ClaimValueView::Flag(true)) ==> yes_claim(claims, name),
        claim_named(claims, name) == Some(ClaimValueView::Flag(false)) ==> !yes_claim(claims, name),
        claim_named(claims, name) == Some(ClaimValueView::Other) ==> !yes_claim(claims, name),
        claim_named(claims, name) == Some(ClaimValueView::Text(t)) ==> (yes_claim(claims, name)
            <==> text::lower(text::trimmed(t)) == "true"@),
{
    assert(text::lower("true"@) =~= "true"@) by {
        reveal_strlit("true");
    }
}

} // verus!
