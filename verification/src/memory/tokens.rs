//! Tokens that are known by heart, and the records of what was issued and changed.

use vstd::prelude::*;

use crate::encoding::bytes_of;
use crate::error;
use crate::error::{CoreError, CoreErrorView};
use crate::ids;
use crate::ids::{ensure_jti, new_id};
use crate::memory::{Store, StoreView};
use crate::model::{
    AdminAuditEntry, AdminAuditEntryView, AuthnTokenInput, AuthnTokenInputView, AuthzTokenInput,
    AuthzTokenInputView, IssuedToken, SignedToken, SignedTokenView, SigningKeyMeta, VerifiedToken,
    VerifiedTokenView, VerifyOptions,
};
use crate::order;
use crate::roles::{copy_permissions, Permission};
use crate::text;
use crate::text::{cat4, copy_texts, strip_prefix};
use crate::time;
use crate::time::{later, seconds_or_default, unix_or_now};

verus! {

/// How long an authentication token is good for unless it says so: an hour.
pub const AUTHN_TTL_SECONDS: u64 = 3600;

/// How long an authorization token is good for unless it says so: a quarter of an hour.
pub const AUTHZ_TTL_SECONDS: u64 = 900;

/// The text of a token: its kind, the subject, and something unique.
pub open spec fn token_text(kind: Seq<char>, subject: Seq<char>, unique: Seq<char>) -> Seq<char> {
    kind + subject + ":"@ + unique
}

/// The authentication token that is signed at the time `now`.
pub open spec fn authn_token(
    input: AuthnTokenInputView,
    jti: Seq<char>,
    now: i64,
    unique: Seq<char>,
) -> SignedTokenView {
    SignedTokenView {
        token: token_text("authn:"@, input.subject, unique),
        jti,
        kid: "memory"@,
        lore_resource_id: Seq::empty(),
        issued_at: now,
        expires_at: time::time_after(now, time::seconds_or(input.ttl, AUTHN_TTL_SECONDS)),
        permissions: Seq::empty(),
        audience: input.audience,
    }
}

/// What is known of an authentication token when it comes back.
pub open spec fn known_token(
    input: AuthnTokenInputView,
    jti: Seq<char>,
    now: i64,
) -> VerifiedTokenView {
    VerifiedTokenView {
        subject: input.subject,
        jti,
        idp: input.idp,
        expires_at: time::time_after(now, time::seconds_or(input.ttl, AUTHN_TTL_SECONDS)),
        audience: input.audience,
        raw_claims: Seq::empty(),
    }
}

/// The authorization token that is signed at the time `now`: it names the first
/// of the resources.
pub open spec fn authz_token(
    input: AuthzTokenInputView,
    jti: Seq<char>,
    now: i64,
    unique: Seq<char>,
) -> SignedTokenView {
    SignedTokenView {
        token: token_text("authz:"@, input.subject, unique),
        jti,
        kid: "memory"@,
        lore_resource_id: if input.resources.len() > 0 {
            input.resources[0].resource_id
        } else {
            Seq::empty()
        },
        issued_at: now,
        expires_at: time::time_after(now, time::seconds_or(input.ttl, AUTHZ_TTL_SECONDS)),
        permissions: if input.resources.len() > 0 {
            input.resources[0].permission
        } else {
            Seq::empty()
        },
        audience: input.audience,
    }
}

impl StoreView {
    /// The store with a token that is known by heart.
    pub open spec fn with_token(self, token: Seq<char>, known: VerifiedTokenView) -> StoreView {
        StoreView { tokens: self.tokens.insert(token, known), ..self }
    }

    /// What is known of a token, with or without `Bearer` in front.
    pub open spec fn verified(self, compact: Seq<char>) -> Result<VerifiedTokenView, CoreErrorView> {
        let token = match text::without_prefix(compact, "Bearer "@) {
            Some(rest) => rest,
            None => compact,
        };
        if self.tokens.contains_key(token) {
            Ok(self.tokens[token])
        } else {
            Err(CoreErrorView::Unauthenticated)
        }
    }

    /// The store with one more record of a change.
    pub open spec fn with_audit(self, entry: AdminAuditEntryView) -> StoreView {
        StoreView { admin_audit: self.admin_audit.push(entry), ..self }
    }
}

impl Store {
    /// Signs an authentication token at the time `now`.
    pub fn sign_authn_at(
        &mut self,
        input: AuthnTokenInput,
        jti: String,
        now: i64,
        unique: String,
    ) -> (r: Result<SignedToken, CoreError>)
        requires
            old(self).wf(),
            now >= 0,
        ensures
            final(self).wf(),
            r matches Ok(signed) && signed@ == authn_token(input@, jti@, now, unique@)
                && final(self)@ == old(self)@.with_token(
                signed@.token,
                known_token(input@, jti@, now),
            ),
    {
        let ghost before = self@;
        let ghost given = input@;
        let expires_at: i64 = later(now, seconds_or_default(input.ttl, AUTHN_TTL_SECONDS));
        let token = cat4("authn:", input.subject.as_str(), ":", unique.as_str());
        let known = VerifiedToken {
            subject: input.subject,
            jti: jti.clone(),
            idp: input.idp,
            expires_at,
            audience: copy_texts(&input.audience),
            raw_claims: Vec::new(),
        };
        assert(known@ =~= known_token(given, jti@, now));
        self.tokens.insert(token.clone(), known);
        let signed = SignedToken {
            token,
            jti,
            kid: "memory".to_owned(),
            lore_resource_id: String::new(),
            issued_at: now,
            expires_at,
            permissions: Vec::new(),
            audience: input.audience,
        };
        assert(signed@ =~= authn_token(given, jti@, now, unique@));
        assert(self@ =~= before.with_token(signed@.token, known_token(given, jti@, now)));
        Ok(signed)
    }

    /// Signs an authentication token.
    pub fn sign_authn(&mut self, input: AuthnTokenInput) -> (r: Result<SignedToken, CoreError>)
        requires
            old(self).wf(),
        ensures
            final(self).wf(),
            r matches Ok(signed) && {
                &&& ids::is_jti_for(input@.jti, signed@.jti)
                &&& signed@.issued_at >= 0
                &&& input@.now matches Some(m) ==> signed@.issued_at == time::unix_time(m)
                &&& exists|unique: Seq<char>|
                    ids::is_uuid(unique) && signed@ == #[trigger] authn_token(
                        input@,
                        signed@.jti,
                        signed@.issued_at,
                        unique,
                    )
                &&& final(self)@ == old(self)@.with_token(
                    signed@.token,
                    known_token(input@, signed@.jti, signed@.issued_at),
                )
            },
    {
        let ghost given = input@;
        let now: i64 = unix_or_now(&input.now);
        let jti = ensure_jti(input.jti.clone());
        let unique = new_id();
        let ghost made = authn_token(given, jti@, now, unique@);
        let r = self.sign_authn_at(input, jti, now, unique);
        assert(made == authn_token(given, made.jti, made.issued_at, unique@));
        r
    }

    /// Signs an authorization token at the time `now`.
    pub fn sign_authz_at(
        &self,
        input: AuthzTokenInput,
        jti: String,
        now: i64,
        unique: String,
    ) -> (r: Result<SignedToken, CoreError>)
        requires
            now >= 0,
        ensures
            r matches Ok(signed) && signed@ == authz_token(input@, jti@, now, unique@),
    {
        let ghost given = input@;
        let expires_at: i64 = later(now, seconds_or_default(input.ttl, AUTHZ_TTL_SECONDS));
        let token = cat4("authz:", input.subject.as_str(), ":", unique.as_str());
        let mut lore_resource_id = String::new();
        let mut permissions: Vec<Permission> = Vec::new();
        if input.resources.len() > 0 {
            assert(given.resources[0] == input.resources@[0]@);
            lore_resource_id = input.resources[0].resource_id.clone();
            permissions = copy_permissions(&input.resources[0].permission);
        }
        let signed = SignedToken {
            token,
            jti,
            kid: "memory".to_owned(),
            lore_resource_id,
            issued_at: now,
            expires_at,
            permissions,
            audience: input.audience,
        };
        assert(signed@ =~= authz_token(given, jti@, now, unique@));
        Ok(signed)
    }

    /// Signs an authorization token.
    pub fn sign_authz(&self, input: AuthzTokenInput) -> (r: Result<SignedToken, CoreError>)
        ensures
            r matches Ok(signed) && {
                &&& ids::is_jti_for(input@.jti, signed@.jti)
                &&& signed@.issued_at >= 0
                &&& input@.now matches Some(m) ==> signed@.issued_at == time::unix_time(m)
                &&& exists|unique: Seq<char>|
                    ids::is_uuid(unique) && signed@ == #[trigger] authz_token(
                        input@,
                        signed@.jti,
                        signed@.issued_at,
                        unique,
                    )
            },
    {
        let ghost given = input@;
        let now: i64 = unix_or_now(&input.now);
        let jti = ensure_jti(input.jti.clone());
        let unique = new_id();
        let ghost made = authz_token(given, jti@, now, unique@);
        let r = self.sign_authz_at(input, jti, now, unique);
        assert(made == authz_token(given, made.jti, made.issued_at, unique@));
        r
    }

    /// What is known of a token. The options are not looked at.
    pub fn verify(&self, compact: &str, _opts: VerifyOptions) -> (r: Result<
        VerifiedToken,
        CoreError,
    >)
        requires
            self.wf(),
        ensures
            error::outcome(r) == self@.verified(compact@),
    {
        let token = match strip_prefix(compact, "Bearer ") {
            Some(rest) => rest,
            None => compact.to_owned(),
        };
        match self.tokens.get(&token) {
            Some(known) => Ok(known.clone()),
            None => Err(CoreError::Unauthenticated),
        }
    }

    /// The set of public keys, as JSON: there are none.
    pub fn jwks(&self) -> (r: Result<Vec<u8>, CoreError>)
        ensures
            r matches Ok(bytes) && bytes@ == vstd::utf8::encode_utf8("{\"keys\":[]}"@),
    {
        Ok(bytes_of("{\"keys\":[]}"))
    }

    /// Records a token as issued.
    pub fn record_issued_token(&mut self, token: IssuedToken) -> (r: Result<(), CoreError>)
        requires
            old(self).wf(),
        ensures
            final(self).wf(),
            r is Ok,
            final(self)@ == (StoreView {
                issued_tokens: old(self)@.issued_tokens.insert(token@.jti, token@),
                ..old(self)@
            }),
    {
        let ghost before = self@;
        let ghost view = token@;
        self.issued_tokens.insert(token.jti.clone(), token);
        assert(self@ =~= (StoreView {
            issued_tokens: before.issued_tokens.insert(view.jti, view),
            ..before
        }));
        Ok(())
    }

    /// Records a change.
    pub fn record_admin_audit(&mut self, entry: AdminAuditEntry) -> (r: Result<(), CoreError>)
        requires
            old(self).wf(),
        ensures
            final(self).wf(),
            r is Ok,
            final(self)@ == old(self)@.with_audit(entry@),
    {
        let ghost before = self@;
        let ghost view = entry@;
        self.admin_audit.push(entry);
        assert(order::views(self.admin_audit@) =~= before.admin_audit.push(view));
        assert(self@ =~= before.with_audit(view));
        Ok(())
    }

    /// There are no keys to generate.
    pub fn generate_active_key(&self, _kid: &str, _alg: &str, _bits: u32) -> (r: Result<
        SigningKeyMeta,
        CoreError,
    >)
        ensures
            r matches Err(e) && e@ == CoreErrorView::Unsupported,
    {
        Err(CoreError::Unsupported)
    }

    /// There are no keys to list.
    pub fn list_keys(&self) -> (r: Result<Vec<SigningKeyMeta>, CoreError>)
        ensures
            r matches Ok(keys) && keys@.len() == 0,
    {
        Ok(Vec::new())
    }
}

} // verus!
