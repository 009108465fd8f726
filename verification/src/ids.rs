//! Identifiers and secrets made up at random.

use vstd::prelude::*;

use crate::text;
use crate::text::{cat2, cat3, characters, text_of};

verus! {

/// The lower-case hexadecimal digits.
pub open spec fn is_hex(c: char) -> bool {
    '0' <= c <= '9' || 'a' <= c <= 'f'
}

/// Whether `s` is a UUID in its simple form: thirty-two hexadecimal digits.
pub open spec fn is_simple_uuid(s: Seq<char>) -> bool {
    &&& s.len() == 32
    &&& forall|i: int| 0 <= i < 32 ==> is_hex(#[trigger] s[i])
}

/// Whether `s` is a UUID in its usual form, with four hyphens.
pub open spec fn is_uuid(s: Seq<char>) -> bool {
    &&& s.len() == 36
    &&& forall|i: int|
        0 <= i < 36 ==> if i == 8 || i == 13 || i == 18 || i == 23 {
            #[trigger] s[i] == '-'
        } else {
            is_hex(s[i])
        }
}

/// `uuid::Uuid::new_v4`, written by its `Display` impl: eight, four, four, four
/// and twelve lower-case hexadecimal digits with hyphens between them. Which
/// digits is up to chance.
#[verifier::external_body]
pub(crate) fn new_id() -> (r: String)
    ensures
        is_uuid(r@),
{
    uuid::Uuid::new_v4().to_string()
}

/// `uuid::Uuid::new_v4`, written by `as_simple`: thirty-two lower-case
/// hexadecimal digits. Which digits is up to chance.
#[verifier::external_body]
fn new_simple_id() -> (r: String)
    ensures
        is_simple_uuid(r@),
{
    uuid::Uuid::new_v4().as_simple().to_string()
}

/// Whether `s` can be a random secret: sixty-four hexadecimal digits.
pub open spec fn is_secret(s: Seq<char>) -> bool {
    &&& s.len() == 64
    &&& forall|i: int| 0 <= i < 64 ==> is_hex(#[trigger] s[i])
}

/// A random secret.
pub fn random_secret() -> (r: String)
    ensures
        is_secret(r@),
{
    let first = new_simple_id();
    let second = new_simple_id();
    cat2(first.as_str(), second.as_str())
}

/// Whether `jti` is what was asked for, or new where nothing was.
pub open spec fn is_jti_for(asked: Seq<char>, jti: Seq<char>) -> bool {
    if asked.len() == 0 {
        is_uuid(jti)
    } else {
        jti == asked
    }
}

/// The identifier of a token: the one that was asked for, or a new one.
pub fn ensure_jti(jti: String) -> (r: String)
    ensures
        is_jti_for(jti@, r@),
{
    if jti.is_empty() {
        new_id()
    } else {
        jti
    }
}

/// The code that a user types: the first eight digits of `raw` in capitals,
/// with a hyphen in the middle.
pub open spec fn user_code_of(raw: Seq<char>) -> Seq<char> {
    let code = text::upper(raw.take(8));
    code.take(4) + "-"@ + code.skip(4)
}

/// The code that a user types, from a UUID in its simple form.
pub fn user_code_from(raw: &str) -> (r: String)
    requires
        is_simple_uuid(raw@),
    ensures
        r@ == user_code_of(raw@),
        r@.len() == 9,
{
    let chars = characters(raw);
    let code = text_of(&chars, 0, 8).as_str().to_ascii_uppercase();
    assert(code@ == text::upper(raw@.take(8))) by {
        assert(raw@.subrange(0, 8) =~= raw@.take(8));
    }
    let code = characters(code.as_str());
    let left = text_of(&code, 0, 4);
    let right = text_of(&code, 4, 8);
    assert(left@ =~= code@.take(4));
    assert(right@ =~= code@.skip(4));
    proof {
        reveal_strlit("-");
    }
    cat3(left.as_str(), "-", right.as_str())
}

/// A user code.
pub fn random_user_code() -> (r: String)
    ensures
        exists|raw: Seq<char>| is_simple_uuid(raw) && r@ == #[trigger] user_code_of(raw),
{
    let raw = new_simple_id();
    let code = user_code_from(raw.as_str());
    assert(is_simple_uuid(raw@) && code@ == user_code_of(raw@));
    code
}

/// A user code is eight letters or digits in capitals, the first eight digits of what it
/// was made of, with a hyphen in the middle.
pub proof fn law_user_code_reads_the_digits(raw: Seq<char>, i: int)
    requires
        is_simple_uuid(raw),
        0 <= i < 8,
    ensures
        user_code_of(raw).len() == 9,
        user_code_of(raw)[4] == '-',
        i < 4 ==> user_code_of(raw)[i] == text::ascii_upper(raw[i]),
        i >= 4 ==> user_code_of(raw)[i + 1] == text::ascii_upper(raw[i]),
{
    reveal_strlit("-");
    let code = text::upper(raw.take(8));
    assert(code.len() == 8);
    assert(code[i] == text::ascii_upper(raw[i]));
}

/// A token has the identifier that was asked for, and a new one only where none was.
pub proof fn law_asked_identifier_is_kept(asked: Seq<char>, jti: Seq<char>)
    requires
        is_jti_for(asked, jti),
    ensures
        asked.len() > 0 ==> jti == asked,
        asked.len() == 0 ==> jti.len() == 36,
{
}

} // verus!
