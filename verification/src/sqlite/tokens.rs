//! Issued tokens, and the records of signing keys.

use vstd::prelude::*;

use crate::encoding::bytes_of;
use crate::error::{invalid, CoreError, CoreErrorView};
use crate::json;
use crate::json::{array_text, quote_all};
use crate::model::{IssuedToken, IssuedTokenView, SigningKeyMeta, SigningKeyMetaView};
use crate::rs256::wire;
use crate::rs256::wire::read_json;
use crate::sqlite;
use crate::sqlite::none_if_empty;
use crate::text;
use crate::text::{cat2, has_nothing};

verus! {

/// An issued token as it is stored.
#[derive(Debug, PartialEq, Eq)]
pub struct IssuedTokenRow {
    pub jti: String,
    pub token_kind: String,
    pub user_id: Option<String>,
    pub repository_id: Option<String>,
    pub lore_resource_id: Option<String>,
    pub role: String,
    pub kid: String,
    pub audience_json: String,
    pub issued_at: i64,
    pub expires_at: i64,
}

/// The view of [`IssuedTokenRow`].
#[verifier::ext_equal]
pub struct IssuedTokenRowView {
    pub jti: Seq<char>,
    pub token_kind: Seq<char>,
    pub user_id: Option<Seq<char>>,
    pub repository_id: Option<Seq<char>>,
    pub lore_resource_id: Option<Seq<char>>,
    pub role: Seq<char>,
    pub kid: Seq<char>,
    pub audience_json: Seq<char>,
    pub issued_at: i64,
    pub expires_at: i64,
}

impl View for IssuedTokenRow {
    type V = IssuedTokenRowView;

    open spec fn view(&self) -> IssuedTokenRowView {
        IssuedTokenRowView {
            jti: self.jti@,
            token_kind: self.token_kind@,
            user_id: text::opt_text(self.user_id),
            repository_id: text::opt_text(self.repository_id),
            lore_resource_id: text::opt_text(self.lore_resource_id),
            role: self.role@,
            kid: self.kid@,
            audience_json: self.audience_json@,
            issued_at: self.issued_at,
            expires_at: self.expires_at,
        }
    }
}

/// An issued token as it is stored.
pub open spec fn row_of_token(t: IssuedTokenView) -> IssuedTokenRowView {
    IssuedTokenRowView {
        jti: t.jti,
        token_kind: t.kind,
        user_id: sqlite::stored(t.user_id),
        repository_id: sqlite::stored(t.repository_id),
        lore_resource_id: sqlite::stored(t.lore_resource_id),
        role: t.role,
        kid: t.kid,
        audience_json: json::array(json::all_quoted(t.audience)),
        issued_at: t.issued_at,
        expires_at: t.expires_at,
    }
}

/// An issued token as it is stored.
pub fn issued_token_row(token: &IssuedToken) -> (r: IssuedTokenRow)
    ensures
        r@ == row_of_token(token@),
{
    IssuedTokenRow {
        jti: token.jti.clone(),
        token_kind: token.kind.clone(),
        user_id: none_if_empty(token.user_id.as_str()),
        repository_id: none_if_empty(token.repository_id.as_str()),
        lore_resource_id: none_if_empty(token.lore_resource_id.as_str()),
        role: token.role.clone(),
        kid: token.kid.clone(),
        audience_json: array_text(&quote_all(&token.audience)),
        issued_at: token.issued_at,
        expires_at: token.expires_at,
    }
}

/// The record of a key as it is stored: a key is active unless it says otherwise.
pub fn key_meta_to_store(key: SigningKeyMeta) -> (r: SigningKeyMeta)
    ensures
        r@ == (SigningKeyMetaView {
            status: if key@.status.len() == 0 {
                "active"@
            } else {
                key@.status
            },
            ..key@
        }),
{
    let mut key = key;
    if key.status.is_empty() {
        key.status = "active".to_owned();
    }
    key
}

/// The public half of a key as it is read: JSON, or why not.
pub open spec fn public_jwk_of(read: Result<Seq<char>, Seq<char>>) -> Result<
    Seq<char>,
    CoreErrorView,
> {
    match read {
        Ok(s) => Ok(s),
        Err(m) => Err(
            CoreErrorView::InvalidArgument("sqlite: invalid public_jwk_json: "@ + m),
        ),
    }
}

/// The public half of a key from what was read as JSON.
pub fn public_jwk_from(read: Result<String, String>) -> (r: Result<String, CoreError>)
    ensures
        match (r, read) {
            (Ok(s), Ok(t)) => s@ == t@,
            (Err(e), Err(m)) => e@ == CoreErrorView::InvalidArgument(
                "sqlite: invalid public_jwk_json: "@ + m@,
            ),
            _ => false,
        },
{
    match read {
        Ok(s) => Ok(s),
        Err(m) => Err(invalid(cat2("sqlite: invalid public_jwk_json: ", m.as_str()).as_str())),
    }
}

/// The public half of a key as it is stored, read as JSON.
pub fn public_jwk(raw: &str) -> (r: Result<String, CoreError>)
    ensures
        match r {
            Ok(s) => public_jwk_of(wire::json_read(vstd::utf8::encode_utf8(raw@))) matches Ok(t)
                && t == s@,
            Err(e) => public_jwk_of(wire::json_read(vstd::utf8::encode_utf8(raw@))) matches Err(m)
                && m == e@,
        },
{
    public_jwk_from(read_json(&bytes_of(raw)))
}

/// The query for the newest active key, of that name where one is given.
pub fn active_key_sql(kid: &str) -> (r: &'static str)
    ensures
        r@ == if kid@.len() == 0 {
            NEWEST_KEY_SQL@
        } else {
            NAMED_KEY_SQL@
        },
{
    if has_nothing(kid) {
        NEWEST_KEY_SQL
    } else {
        NAMED_KEY_SQL
    }
}

/// The newest active key.
pub const NEWEST_KEY_SQL: &'static str =
    "SELECT kid, alg, public_jwk_json, private_key_path, status
             FROM signing_keys
             WHERE status = 'active'
             ORDER BY created_at DESC
             LIMIT 1";

/// The newest active key of a name.
pub const NAMED_KEY_SQL: &'static str =
    "SELECT kid, alg, public_jwk_json, private_key_path, status
             FROM signing_keys
             WHERE status = 'active' AND kid = ?1
             ORDER BY created_at DESC
             LIMIT 1";

} // verus!
