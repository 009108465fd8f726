//! Digests and encodings of bytes.

use vstd::prelude::*;

use crate::text;

verus! {

/// The SHA-256 digest of some bytes.
pub uninterp spec fn sha256(bytes: Seq<u8>) -> Seq<u8>;

/// `sha2::Sha256::digest`: the digest depends on the bytes alone and is 32 bytes long.
#[verifier::external_body]
fn sha256_digest(bytes: &[u8]) -> (r: Vec<u8>)
    ensures
        r@ == sha256(bytes@),
        r@.len() == 32,
{
    <sha2::Sha256 as sha2::Digest>::digest(bytes).to_vec()
}

/// The digit of a number below sixteen.
pub open spec fn hex_digit(n: u8) -> char {
    if n < 10 {
        (48 + n) as char
    } else {
        (87 + n) as char
    }
}

/// Two digits for each byte, the high one first.
pub open spec fn hex_text(bytes: Seq<u8>) -> Seq<char> {
    Seq::new(
        2 * bytes.len(),
        |i: int|
            hex_digit(
                if i % 2 == 0 {
                    bytes[i / 2] / 16
                } else {
                    bytes[i / 2] % 16
                },
            ),
    )
}

/// `hex::encode` writes each byte as two lower-case hexadecimal digits, the
/// high one first.
#[verifier::external_body]
fn hex_encode(bytes: &Vec<u8>) -> (r: String)
    ensures
        r@ == hex_text(bytes@),
{
    hex::encode(bytes)
}

/// What is stored in place of a secret: the hexadecimal SHA-256 digest of the
/// secret without the whitespace around it.
pub open spec fn secret_hash(value: Seq<char>) -> Seq<char> {
    hex_text(sha256(vstd::utf8::encode_utf8(text::trimmed(value))))
}

/// What is stored in place of a code, which may be typed in either case.
pub open spec fn code_hash(value: Seq<char>) -> Seq<char> {
    secret_hash(text::upper(text::trimmed(value)))
}

/// What is stored in place of a secret.
pub fn hash_secret(value: &str) -> (r: String)
    ensures
        r@ == secret_hash(value@),
        r@.len() == 64,
{
    hex_encode(&sha256_digest(value.trim().as_bytes()))
}

/// What is stored in place of a code.
pub fn hash_code(value: &str) -> (r: String)
    ensures
        r@ == code_hash(value@),
        r@.len() == 64,
{
    hash_secret(value.trim().to_ascii_uppercase().as_str())
}

/// The letters of the URL-safe base64 alphabet.
pub open spec fn is_base64url(c: char) -> bool {
    ||| 'A' <= c <= 'Z'
    ||| 'a' <= c <= 'z'
    ||| '0' <= c <= '9'
    ||| c == '-'
    ||| c == '_'
}

/// Whether a text has only letters of the URL-safe base64 alphabet.
pub open spec fn is_base64url_text(s: Seq<char>) -> bool {
    forall|i: int| 0 <= i < s.len() ==> is_base64url(#[trigger] s[i])
}

/// Bytes in the URL-safe base64 alphabet, without padding.
pub uninterp spec fn base64url(bytes: Seq<u8>) -> Seq<char>;

/// The bytes that a text in the URL-safe base64 alphabet stands for, or what is
/// wrong with it.
pub uninterp spec fn base64url_decoded(encoded: Seq<char>) -> Result<Seq<u8>, Seq<char>>;

/// Whether a text stands for these bytes.
pub open spec fn reads_as(encoded: Seq<char>, bytes: Seq<u8>) -> bool {
    base64url_decoded(encoded) == Ok::<Seq<u8>, Seq<char>>(bytes)
}

/// `base64::Engine::encode` of the engine `URL_SAFE_NO_PAD`: the text depends on
/// the bytes alone, has only letters of the alphabet, and is read back by the
/// same engine.
#[verifier::external_body]
pub(crate) fn base64url_encode(bytes: &[u8]) -> (r: String)
    ensures
        r@ == base64url(bytes@),
        is_base64url_text(r@),
        reads_as(r@, bytes@),
{
    base64::Engine::encode(&base64::engine::general_purpose::URL_SAFE_NO_PAD, bytes)
}

/// `base64::Engine::decode` of the engine `URL_SAFE_NO_PAD`: the bytes, or the
/// text of the error, depend on the text alone.
#[verifier::external_body]
pub(crate) fn base64url_decode(encoded: &str) -> (r: Result<Vec<u8>, String>)
    ensures
        match r {
            Ok(bytes) => base64url_decoded(encoded@) matches Ok(b) && b == bytes@,
            Err(e) => base64url_decoded(encoded@) matches Err(m) && m == e@,
        },
{
    base64::Engine::decode(&base64::engine::general_purpose::URL_SAFE_NO_PAD, encoded)
        .map_err(|e| e.to_string())
}

/// What is wrong with bytes that are no UTF-8.
pub uninterp spec fn utf8_fault(raw: Seq<u8>) -> Seq<char>;

/// The text that some bytes stand for, or what is wrong with them.
pub open spec fn utf8_read(raw: Seq<u8>) -> Result<Seq<char>, Seq<char>> {
    if vstd::utf8::valid_utf8(raw) {
        Ok(vstd::utf8::decode_utf8(raw))
    } else {
        Err(utf8_fault(raw))
    }
}

/// Whether `r` is the text that some bytes stand for, or what is wrong with them.
pub open spec fn is_utf8_read(r: Result<String, String>, raw: Seq<u8>) -> bool {
    match (r, utf8_read(raw)) {
        (Ok(s), Ok(t)) => s@ == t,
        (Err(e), Err(m)) => e@ == m,
        _ => false,
    }
}

/// `std::str::from_utf8` takes UTF-8 and nothing else; the text of its error
/// depends on the bytes alone.
#[verifier::external_body]
pub(crate) fn text_from_utf8(raw: &Vec<u8>) -> (r: Result<String, String>)
    ensures
        is_utf8_read(r, raw@),
        r matches Err(e) ==> e@ == utf8_fault(raw@),
{
    std::str::from_utf8(raw).map(|s| s.to_owned()).map_err(|e| e.to_string())
}

/// The bytes of a text.
pub fn bytes_of(s: &str) -> (r: Vec<u8>)
    ensures
        r@ == vstd::utf8::encode_utf8(s@),
{
    let bytes = s.as_bytes();
    let mut out: Vec<u8> = Vec::new();
    let mut i: usize = 0;
    while i < bytes.len()
        invariant
            i <= bytes@.len(),
            out@ == bytes@.take(i as int),
        decreases bytes@.len() - i,
    {
        out.push(bytes[i]);
        i += 1;
        assert(bytes@.take(i as int) =~= bytes@.take(i - 1).push(bytes@[i - 1]));
    }
    assert(bytes@.take(i as int) =~= bytes@);
    out
}

/// A copy of some bytes.
pub fn copy_bytes(v: &Vec<u8>) -> (r: Vec<u8>)
    ensures
        r@ == v@,
{
    let mut out: Vec<u8> = Vec::new();
    let mut i: usize = 0;
    while i < v.len()
        invariant
            i <= v@.len(),
            out@ == v@.take(i as int),
        decreases v@.len() - i,
    {
        out.push(v[i]);
        i += 1;
        assert(v@.take(i as int) =~= v@.take(i - 1).push(v@[i - 1]));
    }
    assert(v@.take(i as int) =~= v@);
    out
}

/// A code is found again however it is typed: the case of its letters and the
/// whitespace around it do not matter.
pub proof fn law_code_hash_ignores_case(a: Seq<char>, b: Seq<char>)
    requires
        text::upper(text::trimmed(a)) == text::upper(text::trimmed(b)),
    ensures
        code_hash(a) == code_hash(b),
{
}

/// Secrets are told apart as well as their digests are: what is stored of two secrets
/// is the same exactly if their digests are, without the whitespace around the secrets,
/// and it is the digest in hexadecimal, two digits for a byte, the high one first.
pub proof fn law_stored_secret_is_its_digest(a: Seq<char>, b: Seq<char>, i: int)
    requires
        0 <= i < sha256(vstd::utf8::encode_utf8(text::trimmed(a))).len(),
    ensures
        secret_hash(a) == secret_hash(b) <==> sha256(vstd::utf8::encode_utf8(text::trimmed(a)))
            == sha256(vstd::utf8::encode_utf8(text::trimmed(b))),
        text::trimmed(a) == text::trimmed(b) ==> secret_hash(a) == secret_hash(b),
        secret_hash(a).len() == 2 * sha256(vstd::utf8::encode_utf8(text::trimmed(a))).len(),
        ({
            let byte = sha256(vstd::utf8::encode_utf8(text::trimmed(a)))[i];
            &&& digit_value(secret_hash(a)[2 * i]) == byte as int / 16
            &&& digit_value(secret_hash(a)[2 * i + 1]) == byte as int % 16
        }),
{
    let x = sha256(vstd::utf8::encode_utf8(text::trimmed(a)));
    let y = sha256(vstd::utf8::encode_utf8(text::trimmed(b)));
    lemma_hex_digits(x, i);
    if secret_hash(a) == secret_hash(b) {
        assert(hex_text(x).len() == hex_text(y).len());
        assert forall|k: int| 0 <= k < x.len() implies x[k] == y[k] by {
            lemma_hex_digits(x, k);
            lemma_hex_digits(y, k);
        }
        assert(x =~= y);
    }
}

/// The value of a lower-case hexadecimal digit.
pub open spec fn digit_value(c: char) -> int {
    if '0' <= c <= '9' {
        c as u32 - '0' as u32
    } else {
        c as u32 - 'a' as u32 + 10
    }
}

proof fn lemma_hex_digits(bytes: Seq<u8>, i: int)
    requires
        0 <= i < bytes.len(),
    ensures
        digit_value(hex_text(bytes)[2 * i]) == bytes[i] as int / 16,
        digit_value(hex_text(bytes)[2 * i + 1]) == bytes[i] as int % 16,
{
    assert((2 * i) % 2 == 0 && (2 * i) / 2 == i);
    assert((2 * i + 1) % 2 == 1 && (2 * i + 1) / 2 == i);
    let high = bytes[i] / 16;
    let low = bytes[i] % 16;
    assert(high < 16 && low < 16);
    assert(hex_text(bytes)[2 * i] == hex_digit(high));
    assert(hex_text(bytes)[2 * i + 1] == hex_digit(low));
    lemma_digit_value(high);
    lemma_digit_value(low);
}

proof fn lemma_digit_value(n: u8)
    requires
        n < 16,
    ensures
        digit_value(hex_digit(n)) == n,
{
    if n < 10 {
        assert(hex_digit(n) as u32 == 48 + n);
    } else {
        assert(hex_digit(n) as u32 == 87 + n);
    }
}

/// What is stored in place of a code is what is stored in place of the secret that it
/// is in capitals.
pub proof fn law_code_is_a_secret_in_capitals(code: Seq<char>)
    ensures
        code_hash(code) == secret_hash(text::upper(text::trimmed(code))),
{
}

} // verus!
