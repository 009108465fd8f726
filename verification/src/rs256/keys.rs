//! RSA keys, and what they sign.

use vstd::prelude::*;

use crate::encoding;
use crate::encoding::{base64url_encode, copy_bytes, text_from_utf8};
use crate::rs256;
use crate::rs256::wire;
use crate::rs256::wire::{claims_text, compact_from, encode_part, header_text};
use crate::rs256::{
    crypto, Error, ErrorView, LoreClaims, LoreClaimsView, RsaJwk, RsaJwkView, ALG_RS256,
    DEFAULT_RSA_BITS,
};
use crate::text;
use crate::text::{cat3, same};

verus! {

/// A private key in the DER form of PKCS#1, with its public half beside it.
#[derive(Debug, PartialEq, Eq)]
pub struct KeyParts {
    pub der: Vec<u8>,
    /// The modulus, the most significant byte first.
    pub modulus: Vec<u8>,
    /// The public exponent, the most significant byte first.
    pub exponent: Vec<u8>,
}

/// The public half of a key.
#[derive(Debug, PartialEq, Eq)]
pub struct PublicParts {
    /// The modulus, the most significant byte first.
    pub modulus: Vec<u8>,
    /// The public exponent, the most significant byte first.
    pub exponent: Vec<u8>,
}

/// Why there is no new key.
#[derive(Debug, PartialEq, Eq)]
pub enum KeyFailure {
    Generate(String),
    Marshal(String),
}

/// The modulus of a private key in the DER form of PKCS#1.
pub uninterp spec fn rsa_modulus(der: Seq<u8>) -> Seq<u8>;

/// The public exponent of a private key in the DER form of PKCS#1.
pub uninterp spec fn rsa_exponent(der: Seq<u8>) -> Seq<u8>;

/// The private key in a PKCS#8 PEM text, or why it has no DER form; none where
/// the text is no such key.
pub uninterp spec fn pkcs8_key(pem: Seq<char>) -> Option<Result<Seq<u8>, Seq<char>>>;

/// The private key in a PKCS#1 PEM text, or why it has no DER form; none where
/// the text is no such key.
pub uninterp spec fn pkcs1_key(pem: Seq<char>) -> Option<Result<Seq<u8>, Seq<char>>>;

/// The PKCS#8 PEM text of a private key, or why there is none.
pub uninterp spec fn pkcs8_pem(der: Seq<u8>) -> Result<Seq<char>, Seq<char>>;

/// The RS256 signature of a message by the private key in that DER form of
/// PKCS#1, or why there is none.
pub uninterp spec fn rs256_signed(der: Seq<u8>, message: Seq<u8>) -> Result<Seq<u8>, Seq<char>>;

/// Whether a signature, in the URL-safe base64 alphabet, is one of the message
/// under a public key.
pub uninterp spec fn rs256_accepts(
    modulus: Seq<u8>,
    exponent: Seq<u8>,
    message: Seq<u8>,
    signature: Seq<char>,
) -> bool;

/// The algorithm and the key that the header of a token names; none where the
/// token has no header.
pub uninterp spec fn jwt_header(compact: Seq<char>) -> Option<(Seq<char>, Option<Seq<char>>)>;

impl KeyParts {
    /// The public half is that of the private key.
    pub open spec fn consistent(&self) -> bool {
        &&& self.modulus@ == rsa_modulus(self.der@)
        &&& self.exponent@ == rsa_exponent(self.der@)
    }
}

/// The largest modulus that signatures are verified with: 4096 bits.
pub const MAX_MODULUS_BYTES: usize = 512;

/// Whether the public half of the private key takes `signature` for one of
/// `message`, unless the modulus is too long for that.
pub open spec fn is_signature(signature: Seq<u8>, der: Seq<u8>, message: Seq<u8>) -> bool {
    rsa_modulus(der).len() <= MAX_MODULUS_BYTES ==> rs256_accepts(
        rsa_modulus(der),
        rsa_exponent(der),
        message,
        encoding::base64url(signature),
    )
}

/// `rsa::RsaPrivateKey::new` with the random numbers of the machine, in the DER
/// form that `to_pkcs1_der` gives, with the bytes of its modulus and exponent.
/// Which key it is, is up to chance; its modulus has as many bits as were asked
/// for.
#[verifier::external_body]
fn new_rsa_key(bits: usize) -> (r: Result<KeyParts, KeyFailure>)
    ensures
        r matches Ok(k) ==> k.consistent(),
        r matches Ok(k) ==> k.modulus@.len() == (bits + 7) / 8,
{
    let key = rsa::RsaPrivateKey::new(&mut rsa::rand_core::OsRng, bits)
        .map_err(|e| KeyFailure::Generate(e.to_string()))?;
    let der = rsa::pkcs1::EncodeRsaPrivateKey::to_pkcs1_der(&key)
        .map_err(|e| KeyFailure::Marshal(e.to_string()))?;
    Ok(KeyParts {
        der: der.as_bytes().to_vec(),
        modulus: rsa::traits::PublicKeyParts::n(&key).to_bytes_be(),
        exponent: rsa::traits::PublicKeyParts::e(&key).to_bytes_be(),
    })
}

/// Whether `r` is what was read of a PEM text.
pub open spec fn is_key_read(
    r: Option<Result<KeyParts, String>>,
    read: Option<Result<Seq<u8>, Seq<char>>>,
) -> bool {
    match (r, read) {
        (None, None) => true,
        (Some(Ok(k)), Some(Ok(der))) => k.der@ == der && k.consistent(),
        (Some(Err(m)), Some(Err(why))) => m@ == why,
        _ => false,
    }
}

/// `rsa::RsaPrivateKey::from_pkcs8_pem`, in the DER form that `to_pkcs1_der`
/// gives, with the bytes of its modulus and exponent: all depends on the text
/// alone.
#[verifier::external_body]
fn read_pkcs8_pem(pem: &str) -> (r: Option<Result<KeyParts, String>>)
    ensures
        is_key_read(r, pkcs8_key(pem@)),
{
    let key = <rsa::RsaPrivateKey as rsa::pkcs8::DecodePrivateKey>::from_pkcs8_pem(pem).ok()?;
    let der = rsa::pkcs1::EncodeRsaPrivateKey::to_pkcs1_der(&key).map_err(|e| e.to_string());
    Some(der.map(|der| KeyParts {
        der: der.as_bytes().to_vec(),
        modulus: rsa::traits::PublicKeyParts::n(&key).to_bytes_be(),
        exponent: rsa::traits::PublicKeyParts::e(&key).to_bytes_be(),
    }))
}

/// `rsa::RsaPrivateKey::from_pkcs1_pem`, in the DER form that `to_pkcs1_der`
/// gives, with the bytes of its modulus and exponent: all depends on the text
/// alone.
#[verifier::external_body]
fn read_pkcs1_pem(pem: &str) -> (r: Option<Result<KeyParts, String>>)
    ensures
        is_key_read(r, pkcs1_key(pem@)),
{
    let key = <rsa::RsaPrivateKey as rsa::pkcs1::DecodeRsaPrivateKey>::from_pkcs1_pem(pem).ok()?;
    let der = rsa::pkcs1::EncodeRsaPrivateKey::to_pkcs1_der(&key).map_err(|e| e.to_string());
    Some(der.map(|der| KeyParts {
        der: der.as_bytes().to_vec(),
        modulus: rsa::traits::PublicKeyParts::n(&key).to_bytes_be(),
        exponent: rsa::traits::PublicKeyParts::e(&key).to_bytes_be(),
    }))
}

/// Whether a PEM text holds a key with this public half.
pub open spec fn holds_public(pem: Seq<char>, modulus: Seq<u8>, exponent: Seq<u8>) -> bool {
    pkcs8_key(pem) matches Some(Ok(der)) && rsa_modulus(der) == modulus && rsa_exponent(der)
        == exponent
}

/// `rsa::RsaPrivateKey::to_pkcs8_pem` with plain line feeds, of the key that
/// `from_pkcs1_der` reads: the text depends on the bytes alone, and
/// `from_pkcs8_pem` reads a key with the same public half from it.
#[verifier::external_body]
fn write_pkcs8_pem(der: &Vec<u8>) -> (r: Result<String, String>)
    ensures
        match r {
            Ok(s) => pkcs8_pem(der@) matches Ok(t) && t == s@,
            Err(e) => pkcs8_pem(der@) matches Err(m) && m == e@,
        },
        r matches Ok(s) ==> holds_public(s@, rsa_modulus(der@), rsa_exponent(der@)),
{
    let key = <rsa::RsaPrivateKey as rsa::pkcs1::DecodeRsaPrivateKey>::from_pkcs1_der(der)
        .map_err(|e| e.to_string())?;
    rsa::pkcs8::EncodePrivateKey::to_pkcs8_pem(&key, rsa::pkcs8::LineEnding::LF)
        .map(|pem| pem.to_string())
        .map_err(|e| e.to_string())
}

/// `rsa::RsaPrivateKey::sign` with `Pkcs1v15Sign` over the SHA-256 of the message,
/// by the key that `from_pkcs1_der` reads: the signature, or why there is none,
/// depends on the arguments alone. It is one that `jsonwebtoken::crypto::verify`
/// accepts under the public half; verification refuses a modulus of more than
/// 4096 bits, so of those that is not said.
#[verifier::external_body]
fn sign_rs256(der: &Vec<u8>, message: &[u8]) -> (r: Result<Vec<u8>, String>)
    ensures
        match r {
            Ok(s) => rs256_signed(der@, message@) matches Ok(t) && t == s@,
            Err(e) => rs256_signed(der@, message@) matches Err(m) && m == e@,
        },
        r matches Ok(s) ==> is_signature(s@, der@, message@),
{
    let key = <rsa::RsaPrivateKey as rsa::pkcs1::DecodeRsaPrivateKey>::from_pkcs1_der(der)
        .map_err(|e| e.to_string())?;
    let digest = <sha2::Sha256 as sha2::Digest>::digest(message);
    key.sign(rsa::Pkcs1v15Sign::new::<sha2::Sha256>(), &digest).map_err(|e| e.to_string())
}

/// `jsonwebtoken::crypto::verify` with RS256 and the key that
/// `DecodingKey::from_rsa_raw_components` makes, where an error counts as a
/// refusal: it depends on the arguments alone.
#[verifier::external_body]
pub(crate) fn signature_holds(
    modulus: &Vec<u8>,
    exponent: &Vec<u8>,
    message: &[u8],
    signature: &str,
) -> (r: bool)
    ensures
        r == rs256_accepts(modulus@, exponent@, message@, signature@),
{
    let key = jsonwebtoken::DecodingKey::from_rsa_raw_components(modulus, exponent);
    jsonwebtoken::crypto::verify(signature, message, &key, jsonwebtoken::Algorithm::RS256)
        .unwrap_or(false)
}

/// What the header of a token names.
#[derive(Debug, PartialEq, Eq)]
pub struct TokenHeader {
    pub alg: String,
    pub kid: Option<String>,
}

/// The view of what the header of a token names.
pub open spec fn header_view(h: Option<TokenHeader>) -> Option<(Seq<char>, Option<Seq<char>>)> {
    match h {
        Some(h) => Some((h.alg@, text::opt_text(h.kid))),
        None => None,
    }
}

/// Whether a token has three parts, the first of which is the RS256 header that
/// names this key.
pub open spec fn is_headed(compact: Seq<char>, kid: Seq<char>) -> bool {
    let parts = text::split_on(compact, '.');
    parts.len() == 3 && parts[0] == wire::part(wire::header_json("RS256"@, kid))
}

/// Whether the header that was read of a token names what was written there.
pub open spec fn header_reads(h: Option<TokenHeader>, compact: Seq<char>) -> bool {
    forall|kid: Seq<char>| #[trigger]
        is_headed(compact, kid) ==> header_view(h) == Some(("RS256"@, Some(kid)))
}

/// `jsonwebtoken::decode_header`: the name of the algorithm and the key depend on
/// the token alone, and an RS256 header that was written with its key is read
/// back.
#[verifier::external_body]
pub(crate) fn read_header(compact: &str) -> (r: Option<TokenHeader>)
    ensures
        header_view(r) == jwt_header(compact@),
        header_reads(r, compact@),
{
    jsonwebtoken::decode_header(compact)
        .ok()
        .map(|h| TokenHeader { alg: format!("{:?}", h.alg), kid: h.kid })
}

/// A key that signs tokens, under a name.
pub struct SigningKey {
    kid: String,
    alg: String,
    parts: KeyParts,
}

/// The view of [`SigningKey`].
#[verifier::ext_equal]
pub struct SigningKeyView {
    pub kid: Seq<char>,
    pub alg: Seq<char>,
    pub der: Seq<u8>,
    pub modulus: Seq<u8>,
    pub exponent: Seq<u8>,
}

impl View for SigningKey {
    type V = SigningKeyView;

    closed spec fn view(&self) -> SigningKeyView {
        SigningKeyView {
            kid: self.kid@,
            alg: self.alg@,
            der: self.parts.der@,
            modulus: self.parts.modulus@,
            exponent: self.parts.exponent@,
        }
    }
}

impl SigningKeyView {
    /// The key of that name in that DER form.
    pub open spec fn of(kid: Seq<char>, der: Seq<u8>) -> SigningKeyView {
        SigningKeyView {
            kid,
            alg: ALG_RS256@,
            der,
            modulus: rsa_modulus(der),
            exponent: rsa_exponent(der),
        }
    }

    /// The header of the tokens that the key signs, as a part of them.
    pub open spec fn head(self) -> Seq<char> {
        wire::part(wire::header_json(self.alg, self.kid))
    }

    /// What comes of signing these claims: the token, or why there is none.
    pub open spec fn signed(self, claims: LoreClaimsView) -> Result<Seq<char>, ErrorView> {
        let input = wire::signing_input(self.head(), wire::part(wire::claims_json(claims)));
        match rs256_signed(self.der, vstd::utf8::encode_utf8(input)) {
            Ok(signature) => Ok(input + "."@ + encoding::base64url(signature)),
            Err(why) => Err(ErrorView::Crypto("sign JWT: "@ + why)),
        }
    }

    /// Whether `token` holds these claims, under this signature of the key.
    pub open spec fn signs_with(
        self,
        claims: LoreClaimsView,
        token: Seq<char>,
        signature: Seq<char>,
    ) -> bool {
        let body = wire::part(wire::claims_json(claims));
        let input = wire::signing_input(self.head(), body);
        &&& token == input + "."@ + signature
        &&& encoding::is_base64url_text(self.head())
        &&& encoding::is_base64url_text(body)
        &&& encoding::is_base64url_text(signature)
        &&& encoding::reads_as(body, vstd::utf8::encode_utf8(wire::claims_json(claims)))
        &&& self.modulus.len() <= MAX_MODULUS_BYTES ==> rs256_accepts(
            self.modulus,
            self.exponent,
            vstd::utf8::encode_utf8(input),
            signature,
        )
    }

    /// Whether `token` holds these claims, signed with the key.
    pub open spec fn signs(self, claims: LoreClaimsView, token: Seq<char>) -> bool {
        exists|signature: Seq<char>| #[trigger] self.signs_with(claims, token, signature)
    }

    /// The public half of the key as a JSON Web Key.
    pub open spec fn jwk(self) -> RsaJwkView {
        rsa_jwk(self.kid, self.alg, self.modulus, self.exponent)
    }
}

/// A public key as a JSON Web Key.
pub open spec fn rsa_jwk(
    kid: Seq<char>,
    alg: Seq<char>,
    modulus: Seq<u8>,
    exponent: Seq<u8>,
) -> RsaJwkView {
    RsaJwkView {
        kty: "RSA"@,
        use_: "sig"@,
        kid,
        alg,
        n: encoding::base64url(modulus),
        e: encoding::base64url(exponent),
    }
}

/// The private key in a PEM text, by what each of two readers makes of it.
pub open spec fn key_read(
    pkcs8: Option<Result<Seq<u8>, Seq<char>>>,
    pkcs1: Option<Result<Seq<u8>, Seq<char>>>,
) -> Result<Seq<u8>, ErrorView> {
    match if pkcs8 is Some {
        pkcs8
    } else {
        pkcs1
    } {
        None => Err(ErrorView::UnsupportedPrivateKey),
        Some(Err(why)) => Err(ErrorView::Crypto("marshal private key: "@ + why)),
        Some(Ok(der)) => Ok(der),
    }
}

/// The private key in a PEM text.
pub open spec fn key_in(pem: Seq<char>) -> Result<Seq<u8>, ErrorView> {
    key_read(pkcs8_key(pem), pkcs1_key(pem))
}

/// The key of that name in a PEM text.
pub open spec fn named_key_in(kid: Seq<char>, pem: Seq<char>) -> Result<SigningKeyView, ErrorView> {
    if kid.len() == 0 {
        Err(ErrorView::MissingKid)
    } else {
        match key_in(pem) {
            Err(e) => Err(e),
            Ok(der) => Ok(SigningKeyView::of(kid, der)),
        }
    }
}

/// The key of that name in the bytes of a PEM file.
pub open spec fn named_key_of(kid: Seq<char>, raw: Seq<u8>) -> Result<SigningKeyView, ErrorView> {
    if kid.len() == 0 {
        Err(ErrorView::MissingKid)
    } else {
        match encoding::utf8_read(raw) {
            Err(m) => Err(ErrorView::Crypto("parse pem: "@ + m)),
            Ok(pem) => named_key_in(kid, pem),
        }
    }
}

/// A public key as a JSON Web Key.
pub fn new_rsa_jwk(kid: &str, alg: &str, modulus: &Vec<u8>, exponent: &Vec<u8>) -> (r: RsaJwk)
    ensures
        r@ == rsa_jwk(kid@, alg@, modulus@, exponent@),
{
    RsaJwk {
        kty: "RSA".to_owned(),
        use_: "sig".to_owned(),
        kid: kid.to_owned(),
        alg: alg.to_owned(),
        n: base64url_encode(modulus.as_slice()),
        e: base64url_encode(exponent.as_slice()),
    }
}

/// The private key that two readers found in a PEM text; the second is asked
/// only where the first found none.
fn parse_rsa_private_key(pem: &str) -> (r: Result<KeyParts, Error>)
    ensures
        match r {
            Ok(k) => key_in(pem@) matches Ok(der) && der == k.der@ && k.consistent(),
            Err(e) => key_in(pem@) matches Err(m) && m == e@,
        },
{
    let read = match read_pkcs8_pem(pem) {
        Some(read) => Some(read),
        None => read_pkcs1_pem(pem),
    };
    match read {
        None => Err(Error::UnsupportedPrivateKey),
        Some(Err(why)) => Err(crypto("marshal private key: ", why.as_str())),
        Some(Ok(parts)) => Ok(parts),
    }
}

/// Why there is no new key.
pub fn key_failure(failure: KeyFailure) -> (r: Error)
    ensures
        r@ == (match failure {
            KeyFailure::Generate(m) => ErrorView::Crypto("generate rsa key: "@ + m@),
            KeyFailure::Marshal(m) => ErrorView::Crypto("marshal private key: "@ + m@),
        }),
{
    match failure {
        KeyFailure::Generate(m) => crypto("generate rsa key: ", m.as_str()),
        KeyFailure::Marshal(m) => crypto("marshal private key: ", m.as_str()),
    }
}

/// The size of a key, or the usual one where none is asked for.
pub open spec fn key_bits(bits: u32) -> u32 {
    if bits == 0 {
        DEFAULT_RSA_BITS
    } else {
        bits
    }
}

impl SigningKey {
    #[verifier::type_invariant]
    spec fn inv(self) -> bool {
        &&& self.kid@.len() > 0
        &&& self.alg@ == ALG_RS256@
        &&& self.parts.consistent()
    }

    /// A new key of that name and size.
    pub fn generate(kid: String, bits: u32) -> (r: Result<SigningKey, Error>)
        ensures
            match r {
                Ok(key) => {
                    &&& kid@.len() > 0
                    &&& key@ == SigningKeyView::of(kid@, key@.der)
                    &&& key@.modulus.len() == (key_bits(bits) + 7) / 8
                },
                Err(e) => if kid@.len() == 0 {
                    e@ == ErrorView::MissingKid
                } else {
                    e@ is Crypto
                },
            },
    {
        if kid.is_empty() {
            return Err(Error::MissingKid);
        }
        let bits: u32 = if bits == 0 {
            DEFAULT_RSA_BITS
        } else {
            bits
        };
        match new_rsa_key(bits as usize) {
            Ok(parts) => Ok(SigningKey { kid, alg: ALG_RS256.to_owned(), parts }),
            Err(failure) => Err(key_failure(failure)),
        }
    }

    /// The key of that name in the bytes of a PEM file.
    pub fn load_pem(kid: String, raw: &Vec<u8>) -> (r: Result<SigningKey, Error>)
        ensures
            rs256::outcome(r) == named_key_of(kid@, raw@),
    {
        if kid.is_empty() {
            return Err(Error::MissingKid);
        }
        match text_from_utf8(raw) {
            Ok(pem) => Self::from_pem(kid, pem.as_str()),
            Err(m) => Err(crypto("parse pem: ", m.as_str())),
        }
    }

    /// The key of that name in a PEM text.
    pub fn from_pem(kid: String, pem: &str) -> (r: Result<SigningKey, Error>)
        ensures
            rs256::outcome(r) == named_key_in(kid@, pem@),
    {
        if kid.is_empty() {
            return Err(Error::MissingKid);
        }
        match parse_rsa_private_key(pem) {
            Ok(parts) => {
                let key = SigningKey { kid, alg: ALG_RS256.to_owned(), parts };
                assert(key@ =~= SigningKeyView::of(kid@, key@.der));
                Ok(key)
            },
            Err(e) => Err(e),
        }
    }

    /// The name of the key.
    pub fn kid(&self) -> (r: &str)
        ensures
            r@ == self@.kid,
            r@.len() > 0,
    {
        proof {
            use_type_invariant(self);
        }
        self.kid.as_str()
    }

    /// The algorithm of the key.
    pub fn alg(&self) -> (r: &str)
        ensures
            r@ == self@.alg,
            r@ == ALG_RS256@,
    {
        proof {
            use_type_invariant(self);
        }
        self.alg.as_str()
    }

    /// The public half of the key.
    pub fn public(&self) -> (r: PublicParts)
        ensures
            r.modulus@ == self@.modulus,
            r.exponent@ == self@.exponent,
    {
        PublicParts {
            modulus: copy_bytes(&self.parts.modulus),
            exponent: copy_bytes(&self.parts.exponent),
        }
    }

    /// Signs the claims of a token.
    pub fn sign_lore_claims(&self, claims: &LoreClaims) -> (r: Result<String, Error>)
        ensures
            rs256::outcome(r) == self@.signed(claims@),
            r matches Ok(token) ==> self@.signs(claims@, token@),
    {
        proof {
            use_type_invariant(self);
        }
        let head = encode_part(header_text(self.alg.as_str(), self.kid.as_str()).as_str());
        let body = encode_part(claims_text(claims).as_str());
        let input = cat3(head.as_str(), ".", body.as_str());
        let signature = match sign_rs256(&self.parts.der, input.as_str().as_bytes()) {
            Ok(bytes) => Ok(base64url_encode(bytes.as_slice())),
            Err(m) => Err(m),
        };
        let ghost made = signature;
        let r = compact_from(input.as_str(), signature);
        proof {
            if made is Ok {
                assert(self@.signs_with(claims@, r->Ok_0@, made->Ok_0@));
            }
        }
        r
    }

    /// The public half of the key as a JSON Web Key.
    pub fn jwk(&self) -> (r: RsaJwk)
        ensures
            r@ == self@.jwk(),
    {
        new_rsa_jwk(
            self.kid.as_str(),
            self.alg.as_str(),
            &self.parts.modulus,
            &self.parts.exponent,
        )
    }

    /// The private key as a PEM text. Whoever loads it gets a key with the same
    /// public half.
    pub fn private_pem(&self) -> (r: Result<String, Error>)
        ensures
            match r {
                Ok(pem) => {
                    &&& pkcs8_pem(self@.der) matches Ok(t) && t == pem@
                    &&& forall|kid: Seq<char>|
                        kid.len() > 0 ==> (#[trigger] named_key_in(kid, pem@) matches Ok(key)
                            && key.modulus == self@.modulus && key.exponent == self@.exponent)
                },
                Err(e) => pkcs8_pem(self@.der) matches Err(m) && e@ == ErrorView::Crypto(
                    "marshal private key: "@ + m,
                ),
            },
    {
        proof {
            use_type_invariant(self);
        }
        match write_pkcs8_pem(&self.parts.der) {
            Ok(pem) => Ok(pem),
            Err(m) => Err(crypto("marshal private key: ", m.as_str())),
        }
    }

    /// Whether a token, by the parts around its dots, is signed with this key.
    pub fn accepts(&self, head: &str, body: &str, signature: &str) -> (r: bool)
        ensures
            r == rs256_accepts(
                self@.modulus,
                self@.exponent,
                vstd::utf8::encode_utf8(wire::signing_input(head@, body@)),
                signature@,
            ),
    {
        let input = cat3(head, ".", body);
        signature_holds(
            &self.parts.modulus,
            &self.parts.exponent,
            input.as_str().as_bytes(),
            signature,
        )
    }
}

/// Whether the header of a token names this key, and RS256.
pub open spec fn header_objection(
    header: (Seq<char>, Option<Seq<char>>),
    kid: Seq<char>,
) -> Option<ErrorView> {
    if header.0 != ALG_RS256@ {
        Some(ErrorView::UnexpectedAlgorithm(header.0))
    } else {
        match header.1 {
            None => Some(ErrorView::MissingKid),
            Some(k) => if k != kid {
                Some(ErrorView::UnexpectedKid(k))
            } else {
                None
            },
        }
    }
}

/// Tests what the header of a token names.
pub fn check_header(header: TokenHeader, kid: &str) -> (r: Result<(), Error>)
    ensures
        match r {
            Ok(()) => header_objection((header.alg@, text::opt_text(header.kid)), kid@) is None,
            Err(e) => header_objection((header.alg@, text::opt_text(header.kid)), kid@) == Some(e@),
        },
{
    if !same(header.alg.as_str(), ALG_RS256) {
        return Err(Error::UnexpectedAlgorithm(header.alg));
    }
    match header.kid {
        None => Err(Error::MissingKid),
        Some(k) => if same(k.as_str(), kid) {
            Ok(())
        } else {
            Err(Error::UnexpectedKid(k))
        },
    }
}

} // verus!
