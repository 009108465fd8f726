//! Signing tokens for users, and verifying them when they come back.

use vstd::prelude::*;

use crate::encoding;
use crate::encoding::{base64url_decode, bytes_of};
use crate::error;
use crate::error::{CoreError, CoreErrorView};
use crate::ids;
use crate::ids::ensure_jti;
use crate::model::{
    AuthnTokenInput, AuthnTokenInputView, AuthzTokenInput, AuthzTokenInputView, SignedToken,
    SignedTokenView, VerifiedToken, VerifiedTokenView, VerifyOptions, VerifyOptionsView,
};
use crate::roles::{copy_permissions, Permission};
use crate::rs256;
use crate::rs256::issue;
use crate::rs256::issue::{
    claim_resources_of, default_now, new_authn_claims_at, new_authz_claims_at, validate_claims,
};
use crate::rs256::keys;
use crate::rs256::keys::{check_header, read_header, SigningKey, SigningKeyView};
use crate::rs256::wire;
use crate::rs256::wire::{claims_text, jwks_text, split_compact};
use crate::rs256::{
    to_core_invalid, to_core_signing_key, to_core_unauth, AuthnOptions, AuthnOptionsView,
    AuthzOptions, AuthzOptionsView, Error, ErrorView, JwkSet, JwkSetView, LoreClaims,
    LoreClaimsView,
};
use crate::text;
use crate::time::{clock, Moment, Span};

verus! {

/// The options of an authentication token.
pub open spec fn authn_options(input: AuthnTokenInputView, jti: Seq<char>) -> AuthnOptionsView {
    AuthnOptionsView {
        issuer: input.issuer,
        audience: input.audience,
        subject: input.subject,
        env: Seq::empty(),
        name: input.name,
        preferred_username: input.preferred_username,
        groups: input.groups,
        idp: input.idp,
        is_service_account: false,
        ttl: input.ttl,
        now: None,
        jti,
    }
}

/// The options of an authorization token.
pub open spec fn authz_options(input: AuthzTokenInputView, jti: Seq<char>) -> AuthzOptionsView {
    AuthzOptionsView {
        issuer: input.issuer,
        audience: input.audience,
        subject: input.subject,
        env: Seq::empty(),
        name: input.name,
        preferred_username: input.preferred_username,
        groups: input.groups,
        idp: input.idp,
        is_service_account: false,
        resources: issue::claim_resources(input.resources),
        ttl: input.ttl,
        now: None,
        jti,
    }
}

/// A token with these claims, and the one resource that is spoken of beside it.
pub open spec fn signed_token(
    token: Seq<char>,
    kid: Seq<char>,
    claims: LoreClaimsView,
    resource: (Seq<char>, Seq<Permission>),
) -> SignedTokenView {
    SignedTokenView {
        token,
        jti: claims.jti,
        kid,
        lore_resource_id: resource.0,
        issued_at: claims.issued_at,
        expires_at: claims.expires_at,
        permissions: resource.1,
        audience: claims.audience,
    }
}

/// The first resource of an authorization token, and what is permitted on it.
pub open spec fn first_resource(input: AuthzTokenInputView) -> (Seq<char>, Seq<Permission>) {
    if input.resources.len() > 0 {
        (input.resources[0].resource_id, input.resources[0].permission)
    } else {
        (Seq::empty(), Seq::empty())
    }
}

/// Whether `r` is what comes of signing these claims with a key: the token with
/// the signature of the key wherever the key signs them.
pub open spec fn is_signing(
    r: Result<SignedTokenView, CoreErrorView>,
    key: SigningKeyView,
    claims: Result<LoreClaimsView, ErrorView>,
    resource: (Seq<char>, Seq<Permission>),
) -> bool {
    match claims {
        Err(e) => r == Err::<SignedTokenView, _>(
            CoreErrorView::InvalidArgument(rs256::message_of(e)),
        ),
        Ok(claims) => match key.signed(claims) {
            Ok(token) => key.signs(claims, token) && r == Ok::<_, CoreErrorView>(
                signed_token(token, key.kid, claims, resource),
            ),
            Err(_) => r == Err::<SignedTokenView, _>(CoreErrorView::SigningKeyUnavailable),
        },
    }
}

/// The token with these claims, once it is signed.
pub fn token_from(
    claims: LoreClaims,
    kid: &str,
    resource_id: String,
    permissions: Vec<Permission>,
    token: Result<String, Error>,
) -> (r: Result<SignedToken, CoreError>)
    ensures
        match token {
            Ok(t) => r matches Ok(signed) && signed@ == signed_token(
                t@,
                kid@,
                claims@,
                (resource_id@, permissions@),
            ),
            Err(_) => r matches Err(e) && e@ == CoreErrorView::SigningKeyUnavailable,
        },
{
    match token {
        Ok(token) => Ok(
            SignedToken {
                token,
                jti: claims.jti,
                kid: kid.to_owned(),
                lore_resource_id: resource_id,
                issued_at: claims.issued_at,
                expires_at: claims.expires_at,
                permissions,
                audience: claims.audience,
            },
        ),
        Err(e) => Err(to_core_signing_key(e)),
    }
}

/// Signs tokens with one key, and verifies them.
pub struct Signer {
    key: SigningKey,
    verification_time: Option<Moment>,
}

/// The view of [`Signer`].
pub struct SignerView {
    pub key: SigningKeyView,
    /// The time at which tokens are verified; by the clock where there is none.
    pub verification_time: Option<Moment>,
}

impl View for Signer {
    type V = SignerView;

    closed spec fn view(&self) -> SignerView {
        SignerView { key: self.key@, verification_time: self.verification_time }
    }
}

impl SigningKeyView {
    /// The claims in a token that the key has signed, by what was read of its
    /// header.
    pub open spec fn payload_with(
        self,
        compact: Seq<char>,
        header: Option<(Seq<char>, Option<Seq<char>>)>,
    ) -> Result<Seq<u8>, CoreErrorView> {
        let parts = text::split_on(compact, '.');
        if header is None || keys::header_objection(header->0, self.kid) is Some || parts.len()
            != 3 {
            Err(CoreErrorView::Unauthenticated)
        } else if !keys::rs256_accepts(
            self.modulus,
            self.exponent,
            vstd::utf8::encode_utf8(wire::signing_input(parts[0], parts[1])),
            parts[2],
        ) {
            Err(CoreErrorView::Unauthenticated)
        } else {
            match encoding::base64url_decoded(parts[1]) {
                Ok(raw) => Ok(raw),
                Err(_) => Err(CoreErrorView::Unauthenticated),
            }
        }
    }

    /// The claims in a token that the key has signed.
    pub open spec fn payload(self, compact: Seq<char>) -> Result<Seq<u8>, CoreErrorView> {
        self.payload_with(compact, keys::jwt_header(compact))
    }
}

/// What is known of a token with these claims, at `now`.
pub open spec fn verified(
    claims: LoreClaimsView,
    opts: VerifyOptionsView,
    now: Moment,
) -> Result<VerifiedTokenView, CoreErrorView> {
    if issue::objection(claims, opts, now) is Some {
        Err(CoreErrorView::Unauthenticated)
    } else {
        Ok(
            VerifiedTokenView {
                subject: claims.subject,
                jti: claims.jti,
                idp: claims.idp,
                expires_at: claims.expires_at,
                audience: claims.audience,
                raw_claims: vstd::utf8::encode_utf8(wire::claims_json(claims)),
            },
        )
    }
}

/// What is known of a token with these claims, at `now`.
pub fn verified_token_at(claims: LoreClaims, opts: VerifyOptions, now: &Moment) -> (r: Result<
    VerifiedToken,
    CoreError,
>)
    ensures
        error::outcome(r) == verified(claims@, opts@, *now),
{
    if let Err(e) = validate_claims(&claims, opts, now) {
        return Err(to_core_unauth(e));
    }
    let raw_claims = bytes_of(claims_text(&claims).as_str());
    Ok(
        VerifiedToken {
            subject: claims.subject,
            jti: claims.jti,
            idp: claims.idp,
            expires_at: claims.expires_at,
            audience: claims.audience,
            raw_claims,
        },
    )
}

/// What is known of a token: its claims must be ones that the key has signed, and it
/// must be possible to read them.
pub open spec fn verification(
    payload: Result<Seq<u8>, CoreErrorView>,
    read: Option<LoreClaimsView>,
    opts: VerifyOptionsView,
    now: Moment,
) -> Result<VerifiedTokenView, CoreErrorView> {
    match payload {
        Err(e) => Err(e),
        Ok(_) => match read {
            None => Err(CoreErrorView::Unauthenticated),
            Some(claims) => verified(claims, opts, now),
        },
    }
}

/// The view of claims that were read, if they could be.
pub open spec fn read_view(read: Option<LoreClaims>) -> Option<LoreClaimsView> {
    match read {
        Some(claims) => Some(claims@),
        None => None,
    }
}

/// Whether claims are what a function reads from these bytes, if there are any.
pub open spec fn is_read<F: Fn(Vec<u8>) -> Option<LoreClaims>>(
    payload: Result<Seq<u8>, CoreErrorView>,
    read: F,
    claims: Option<LoreClaims>,
) -> bool {
    payload matches Ok(p) ==> exists|raw: Vec<u8>|
        raw@ == p && #[trigger] call_ensures(read, (raw,), claims)
}

/// A token that a key has signed has three parts, the header first.
proof fn lemma_signed_parts(
    key: SigningKeyView,
    claims: LoreClaimsView,
    token: Seq<char>,
    signature: Seq<char>,
)
    requires
        key.signs_with(claims, token, signature),
    ensures
        text::split_on(token, '.') == seq![
            key.head(),
            wire::part(wire::claims_json(claims)),
            signature,
        ],
{
    let head = key.head();
    let body = wire::part(wire::claims_json(claims));
    reveal_strlit(".");
    assert("."@ =~= seq!['.']);
    assert(!head.contains('.'));
    assert(!body.contains('.'));
    assert(!signature.contains('.'));
    text::lemma_split_on_plain(head, '.');
    assert(wire::signing_input(head, body) =~= head.push('.') + body);
    text::lemma_split_on_more(head, body, '.');
    assert(token =~= wire::signing_input(head, body).push('.') + signature);
    text::lemma_split_on_more(wire::signing_input(head, body), signature, '.');
    assert(text::split_on(token, '.') =~= seq![head, body, signature]);
}

impl Signer {
    /// A signer with this key, which verifies by the clock.
    pub fn new(key: SigningKey) -> (r: Signer)
        ensures
            r@ == (SignerView { key: key@, verification_time: None }),
    {
        Signer { key, verification_time: None }
    }

    /// A signer with the key of that name in the bytes of a PEM file.
    pub fn from_pem_file(kid: String, raw: &Vec<u8>) -> (r: Result<Signer, Error>)
        ensures
            match r {
                Ok(signer) => keys::named_key_of(kid@, raw@) matches Ok(key) && signer@ == (
                SignerView { key, verification_time: None }),
                Err(e) => keys::named_key_of(kid@, raw@) matches Err(m) && e@ == m,
            },
    {
        match SigningKey::load_pem(kid, raw) {
            Ok(key) => Ok(Signer::new(key)),
            Err(e) => Err(e),
        }
    }

    /// The same signer, but it verifies at that time.
    pub fn with_verification_time(self, now: Moment) -> (r: Signer)
        ensures
            r@ == (SignerView { verification_time: Some(now), ..self@ }),
    {
        Signer { key: self.key, verification_time: Some(now) }
    }

    /// The time at which tokens are verified.
    fn now(&self) -> (r: Moment)
        ensures
            self@.verification_time matches Some(m) ==> r == m,
    {
        match &self.verification_time {
            Some(Moment::BeforeEpoch(why)) => Moment::BeforeEpoch(why.clone()),
            Some(Moment::SinceEpoch(s)) => Moment::SinceEpoch(*s),
            None => clock(),
        }
    }

    /// Signs an authentication token under that identifier, at `now`.
    pub fn sign_authn_at(&self, input: AuthnTokenInput, jti: String, now: &Moment) -> (r: Result<
        SignedToken,
        CoreError,
    >)
        ensures
            is_signing(
                error::outcome(r),
                self@.key,
                issue::authn_claims(authn_options(input@, jti@), *now),
                (Seq::empty(), Seq::empty()),
            ),
    {
        let ghost options = authn_options(input@, jti@);
        let opts = AuthnOptions {
            issuer: input.issuer,
            audience: input.audience,
            subject: input.subject,
            env: String::new(),
            name: input.name,
            preferred_username: input.preferred_username,
            groups: input.groups,
            idp: input.idp,
            is_service_account: false,
            ttl: input.ttl,
            now: None,
            jti,
        };
        assert(opts@ =~= options);
        let claims = match new_authn_claims_at(opts, now) {
            Ok(claims) => claims,
            Err(e) => return Err(to_core_invalid(e)),
        };
        let token = self.key.sign_lore_claims(&claims);
        let none: Vec<Permission> = Vec::new();
        let nothing = String::new();
        assert(none@ =~= Seq::<Permission>::empty());
        assert(nothing@ =~= Seq::<char>::empty());
        token_from(claims, self.key.kid(), nothing, none, token)
    }

    /// Signs an authentication token.
    pub fn sign_authn(&self, input: AuthnTokenInput) -> (r: Result<SignedToken, CoreError>)
        ensures
            exists|jti: Seq<char>, now: Moment|
                {
                    &&& ids::is_jti_for(input@.jti, jti)
                    &&& input@.now matches Some(m) ==> now == m
                    &&& #[trigger] is_signing(
                        error::outcome(r),
                        self@.key,
                        issue::authn_claims(authn_options(input@, jti), now),
                        (Seq::empty(), Seq::empty()),
                    )
                },
    {
        let ghost given = input@;
        let AuthnTokenInput {
            issuer,
            audience,
            subject,
            name,
            preferred_username,
            groups,
            idp,
            ttl,
            now,
            jti,
        } = input;
        let jti = ensure_jti(jti);
        let time = default_now(now);
        let input = AuthnTokenInput {
            issuer,
            audience,
            subject,
            name,
            preferred_username,
            groups,
            idp,
            ttl,
            now: None,
            jti: String::new(),
        };
        let ghost id = jti@;
        assert(authn_options(input@, id) =~= authn_options(given, id));
        self.sign_authn_at(input, jti, &time)
    }

    /// Signs an authorization token under that identifier, at `now`.
    pub fn sign_authz_at(&self, input: AuthzTokenInput, jti: String, now: &Moment) -> (r: Result<
        SignedToken,
        CoreError,
    >)
        ensures
            is_signing(
                error::outcome(r),
                self@.key,
                issue::authz_claims(authz_options(input@, jti@), *now),
                first_resource(input@),
            ),
    {
        let ghost given = input@;
        let ghost options = authz_options(input@, jti@);
        let opts = AuthzOptions {
            issuer: input.issuer,
            audience: input.audience,
            subject: input.subject,
            env: String::new(),
            name: input.name,
            preferred_username: input.preferred_username,
            groups: input.groups,
            idp: input.idp,
            is_service_account: false,
            resources: claim_resources_of(&input.resources),
            ttl: input.ttl,
            now: None,
            jti,
        };
        assert(opts@ =~= options);
        let claims = match new_authz_claims_at(opts, now) {
            Ok(claims) => claims,
            Err(e) => return Err(to_core_invalid(e)),
        };
        let token = self.key.sign_lore_claims(&claims);
        let mut resource_id = String::new();
        let mut permissions: Vec<Permission> = Vec::new();
        if input.resources.len() > 0 {
            assert(given.resources[0] == input.resources@[0]@);
            resource_id = input.resources[0].resource_id.clone();
            permissions = copy_permissions(&input.resources[0].permission);
        }
        token_from(claims, self.key.kid(), resource_id, permissions, token)
    }

    /// Signs an authorization token.
    pub fn sign_authz(&self, input: AuthzTokenInput) -> (r: Result<SignedToken, CoreError>)
        ensures
            exists|jti: Seq<char>, now: Moment|
                {
                    &&& ids::is_jti_for(input@.jti, jti)
                    &&& input@.now matches Some(m) ==> now == m
                    &&& #[trigger] is_signing(
                        error::outcome(r),
                        self@.key,
                        issue::authz_claims(authz_options(input@, jti), now),
                        first_resource(input@),
                    )
                },
    {
        let ghost given = input@;
        let AuthzTokenInput {
            issuer,
            audience,
            subject,
            name,
            preferred_username,
            groups,
            idp,
            resources,
            ttl,
            now,
            jti,
        } = input;
        let jti = ensure_jti(jti);
        let time = default_now(now);
        let input = AuthzTokenInput {
            issuer,
            audience,
            subject,
            name,
            preferred_username,
            groups,
            idp,
            resources,
            ttl,
            now: None,
            jti: String::new(),
        };
        let ghost id = jti@;
        assert(authz_options(input@, id) =~= authz_options(given, id));
        assert(first_resource(input@) == first_resource(given));
        self.sign_authz_at(input, jti, &time)
    }

    /// The claims, as JSON, in a token that the key has signed. Every token that
    /// the key signs gives its claims back, unless the key is too long to verify
    /// with.
    pub fn verified_payload(&self, compact: &str) -> (r: Result<Vec<u8>, CoreError>)
        ensures
            match r {
                Ok(raw) => self@.key.payload(compact@) matches Ok(p) && p == raw@,
                Err(e) => self@.key.payload(compact@) matches Err(m) && m == e@,
            },
            forall|claims: LoreClaimsView| #[trigger]
                self@.key.signs(claims, compact@) && self@.key.modulus.len()
                    <= keys::MAX_MODULUS_BYTES ==> (r matches Ok(raw) && raw@
                    == vstd::utf8::encode_utf8(wire::claims_json(claims))),
    {
        let alg = self.key.alg();
        let header = read_header(compact);
        let ghost read = header;
        let r = self.payload_from(compact, header);
        proof {
            assert forall|claims: LoreClaimsView| #[trigger]
                self@.key.signs(claims, compact@) && self@.key.modulus.len()
                    <= keys::MAX_MODULUS_BYTES implies (r matches Ok(raw) && raw@
                == vstd::utf8::encode_utf8(wire::claims_json(claims))) by {
                let signature = choose|signature: Seq<char>| #[trigger]
                    self@.key.signs_with(claims, compact@, signature);
                lemma_signed_parts(self@.key, claims, compact@, signature);
                assert(keys::is_headed(compact@, self@.key.kid));
                assert(keys::header_view(read) == Some((alg@, Some(self@.key.kid))));
            }
        }
        r
    }

    /// The claims, as JSON, in a token whose header was read.
    pub fn payload_from(&self, compact: &str, header: Option<keys::TokenHeader>) -> (r: Result<
        Vec<u8>,
        CoreError,
    >)
        ensures
            match r {
                Ok(raw) => self@.key.payload_with(compact@, keys::header_view(header)) matches Ok(p)
                    && p == raw@,
                Err(e) => self@.key.payload_with(compact@, keys::header_view(header)) matches Err(m)
                    && m == e@,
            },
    {
        let header = match header {
            Some(header) => header,
            None => return Err(CoreError::Unauthenticated),
        };
        if let Err(e) = check_header(header, self.key.kid()) {
            return Err(to_core_unauth(e));
        }
        let parts = match split_compact(compact) {
            Ok(parts) => parts,
            Err(e) => return Err(to_core_unauth(e)),
        };
        assert(text::texts(parts@)[0] == parts@[0]@);
        assert(text::texts(parts@)[1] == parts@[1]@);
        assert(text::texts(parts@)[2] == parts@[2]@);
        if !self.key.accepts(parts[0].as_str(), parts[1].as_str(), parts[2].as_str()) {
            return Err(CoreError::Unauthenticated);
        }
        match base64url_decode(parts[1].as_str()) {
            Ok(raw) => Ok(raw),
            Err(_) => Err(CoreError::Unauthenticated),
        }
    }

    /// What is known of a token with these claims.
    pub fn verified_token(&self, claims: LoreClaims, opts: VerifyOptions) -> (r: Result<
        VerifiedToken,
        CoreError,
    >)
        ensures
            exists|now: Moment|
                {
                    &&& self@.verification_time matches Some(m) ==> now == m
                    &&& error::outcome(r) == #[trigger] verified(claims@, opts@, now)
                },
    {
        let now = self.now();
        verified_token_at(claims, opts, &now)
    }

    /// What is known of a token, where `read` reads the claims from their JSON text, if
    /// it can.
    pub fn verify<F: Fn(Vec<u8>) -> Option<LoreClaims>>(
        &self,
        compact: &str,
        opts: VerifyOptions,
        read: F,
    ) -> (r: Result<VerifiedToken, CoreError>)
        requires
            forall|raw: Vec<u8>| call_requires(read, (raw,)),
        ensures
            exists|now: Moment, claims: Option<LoreClaims>|
                {
                    &&& self@.verification_time matches Some(m) ==> now == m
                    &&& is_read(self@.key.payload(compact@), read, claims)
                    &&& error::outcome(r) == #[trigger] verification(
                        self@.key.payload(compact@),
                        read_view(claims),
                        opts@,
                        now,
                    )
                },
    {
        let ghost payload = self@.key.payload(compact@);
        let ghost asked = opts@;
        let ghost mut now: Moment = match self@.verification_time {
            Some(m) => m,
            None => Moment::SinceEpoch(Span { secs: 0, nanos: 0 }),
        };
        let ghost mut found: Option<LoreClaims> = None;
        let r = match self.verified_payload(compact) {
            Err(e) => Err(e),
            Ok(raw) => {
                let claims = read(raw);
                proof {
                    found = claims;
                }
                match claims {
                    None => Err(CoreError::Unauthenticated),
                    Some(claims) => {
                        let r = self.verified_token(claims, opts);
                        proof {
                            now = choose|now: Moment|
                                {
                                    &&& self@.verification_time matches Some(m) ==> now == m
                                    &&& error::outcome(r) == #[trigger] verified(
                                        claims@,
                                        asked,
                                        now,
                                    )
                                };
                        }
                        r
                    },
                }
            },
        };
        assert(is_read(payload, read, found));
        assert(error::outcome(r) == verification(payload, read_view(found), asked, now));
        r
    }

    /// The set of public keys, as JSON.
    pub fn jwks(&self) -> (r: Result<Vec<u8>, CoreError>)
        ensures
            r matches Ok(bytes) && bytes@ == vstd::utf8::encode_utf8(
                wire::jwks_json(JwkSetView { keys: seq![self@.key.jwk()] }),
            ),
    {
        let mut keys: Vec<rs256::RsaJwk> = Vec::new();
        keys.push(self.key.jwk());
        let set = JwkSet { keys };
        assert(set@.keys =~= seq![self@.key.jwk()]);
        Ok(bytes_of(jwks_text(&set).as_str()))
    }
}

/// Whether what was read of a token's header is what was written there, if it was
/// written for RS256 with a key.
pub open spec fn header_is_read(
    header: Option<(Seq<char>, Option<Seq<char>>)>,
    compact: Seq<char>,
) -> bool {
    forall|kid: Seq<char>| #[trigger]
        keys::is_headed(compact, kid) ==> header == Some(("RS256"@, Some(kid)))
}

/// What reads claims from their JSON text, if it can.
pub struct ReaderView {
    pub reads: spec_fn(Seq<u8>) -> Option<LoreClaimsView>,
}

impl ReaderView {
    /// What is read from a text.
    pub open spec fn read(self, raw: Seq<u8>) -> Option<LoreClaimsView> {
        (self.reads)(raw)
    }

    /// Whether claims that were written are read back as they were.
    pub open spec fn reads_back(self) -> bool {
        forall|claims: LoreClaimsView|
            self.read(vstd::utf8::encode_utf8(#[trigger] wire::claims_json(claims))) == Some(claims)
    }
}

impl SigningKeyView {
    /// What is known of a token under this key, by what was read of its header.
    pub open spec fn verifies(
        self,
        compact: Seq<char>,
        header: Option<(Seq<char>, Option<Seq<char>>)>,
        reader: ReaderView,
        wanted: VerifyOptionsView,
        now: Moment,
    ) -> Result<VerifiedTokenView, CoreErrorView> {
        let payload = self.payload_with(compact, header);
        verification(payload, reader.read(payload->Ok_0), wanted, now)
    }
}

/// An authentication token that was signed is good for whoever has the key, and asks
/// for its issuer and one of its audiences: until it expires, and not after, nor before
/// the epoch. It says of the subject what it was signed with. Where it is not good,
/// nothing is said of why.
///
/// `header` is what was read of the header of the token. A key that is too long to
/// verify with is left out.
pub proof fn law_signed_token_is_good_until_it_expires(
    key: SigningKeyView,
    input: AuthnTokenInputView,
    jti: Seq<char>,
    issued: Moment,
    token: SignedTokenView,
    header: Option<(Seq<char>, Option<Seq<char>>)>,
    reader: ReaderView,
    wanted: VerifyOptionsView,
    now: Moment,
)
    requires
        key.alg == "RS256"@,
        key.modulus.len() <= keys::MAX_MODULUS_BYTES,
        is_signing(
            Ok(token),
            key,
            issue::authn_claims(authn_options(input, jti), issued),
            (Seq::empty(), Seq::empty()),
        ),
        header_is_read(header, token.token),
        reader.reads_back(),
        wanted.issuer == input.issuer,
        input.audience.contains(wanted.audience),
    ensures
        ({
            let r = key.verifies(token.token, header, reader, wanted, now);
            &&& r is Ok <==> now is SinceEpoch && now->SinceEpoch_0.secs < token.expires_at
            &&& r is Err ==> r == Err::<VerifiedTokenView, _>(CoreErrorView::Unauthenticated)
            &&& r matches Ok(v) ==> {
                &&& v.subject == input.subject
                &&& v.jti == token.jti
                &&& v.jti == jti
                &&& v.idp == input.idp
                &&& v.expires_at == token.expires_at
                &&& v.audience == token.audience
                &&& v.audience == input.audience
            }
        }),
{
    let claims = issue::authn_claims(authn_options(input, jti), issued)->Ok_0;
    let signature = choose|signature: Seq<char>| #[trigger]
        key.signs_with(claims, token.token, signature);
    lemma_signed_parts(key, claims, token.token, signature);
    assert(keys::is_headed(token.token, key.kid));
    assert(key.payload_with(token.token, header) == Ok::<_, CoreErrorView>(
        vstd::utf8::encode_utf8(wire::claims_json(claims)),
    ));
    if now is SinceEpoch {
        issue::law_fresh_claims_are_accepted(authn_options(input, jti), issued, wanted, now);
    }
}

/// A token is refused wherever its header does not name the key, and wherever the
/// key does not take its signature for one of the header and the claims that stand
/// in it: one of another key, one under another name, or one that was altered.
pub proof fn law_token_of_another_key_is_refused(
    key: SigningKeyView,
    compact: Seq<char>,
    header: Option<(Seq<char>, Option<Seq<char>>)>,
    reader: ReaderView,
    wanted: VerifyOptionsView,
    now: Moment,
)
    requires
        ({
            let parts = text::split_on(compact, '.');
            ||| !(header matches Some((alg, kid)) && alg == "RS256"@ && kid == Some(key.kid))
            ||| parts.len() != 3
            ||| !keys::rs256_accepts(
                key.modulus,
                key.exponent,
                vstd::utf8::encode_utf8(wire::signing_input(parts[0], parts[1])),
                parts[2],
            )
        }),
    ensures
        key.verifies(compact, header, reader, wanted, now) == Err::<VerifiedTokenView, _>(
            CoreErrorView::Unauthenticated,
        ),
{
}

} // verus!
