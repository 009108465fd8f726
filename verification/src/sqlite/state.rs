//! Logins, sessions and their tokens.

use vstd::prelude::*;

use crate::encoding;
use crate::encoding::hash_secret;
use crate::error;
use crate::error::{CoreError, CoreErrorView};
use crate::model::{
    AuthSession, AuthSessionView, BrowserSession, BrowserSessionView, LoginState, LoginStateInput,
    LoginStateInputView, LoginStateView,
};
use crate::sqlite;
use crate::sqlite::{none_if_empty, or_empty, or_zero};
use crate::text;
use crate::text::{cat2, same};
use crate::time;
use crate::time::{ttl_seconds, Span};

verus! {

/// Whether the time at which something is over can be told.
pub open spec fn ends(now: i64, ttl: Span) -> bool {
    now + time::whole_seconds(ttl) <= i64::MAX
}

/// The time at which something is over.
pub open spec fn end_of(now: i64, ttl: Span) -> i64 {
    (now + time::whole_seconds(ttl)) as i64
}

/// A new login.
pub open spec fn auth_session_of(
    client_state: Seq<char>,
    ttl: Span,
    id: Seq<char>,
    nonce: Seq<char>,
    now: i64,
) -> AuthSessionView {
    AuthSessionView {
        id,
        client_state_hash: encoding::secret_hash(client_state),
        status: "pending"@,
        user_id: Seq::empty(),
        login_url_nonce: nonce,
        expires_at: end_of(now, ttl),
    }
}

/// A new login, under this identifier and with this nonce, at the time `now`.
pub fn new_auth_session_at(client_state: &str, ttl: Span, id: String, nonce: String, now: i64) -> (r:
    AuthSession)
    requires
        ends(now, ttl),
    ensures
        r@ == auth_session_of(client_state@, ttl, id@, nonce@, now),
{
    let session = AuthSession {
        id,
        client_state_hash: hash_secret(client_state),
        status: "pending".to_owned(),
        user_id: String::new(),
        login_url_nonce: nonce,
        expires_at: now + ttl_seconds(ttl),
    };
    assert(session@ =~= auth_session_of(client_state@, ttl, id@, nonce@, now));
    session
}

/// A login, unless there is none or it is over.
pub open spec fn live(found: Option<AuthSessionView>, now: i64) -> Result<
    AuthSessionView,
    CoreErrorView,
> {
    match found {
        Some(s) => if s.expires_at <= now {
            Err(CoreErrorView::AuthSessionNotFound)
        } else {
            Ok(s)
        },
        None => Err(CoreErrorView::AuthSessionNotFound),
    }
}

/// A login, unless there is none or it is over.
pub fn live_auth_session(found: Option<AuthSession>, now: i64) -> (r: Result<AuthSession, CoreError>)
    ensures
        error::outcome(r) == live(
            match found {
                Some(s) => Some(s@),
                None => None,
            },
            now,
        ),
{
    match found {
        Some(session) => if session.expires_at <= now {
            Err(CoreError::AuthSessionNotFound)
        } else {
            Ok(session)
        },
        None => Err(CoreError::AuthSessionNotFound),
    }
}

/// A login as it is read.
pub fn auth_session_from_row(
    id: String,
    client_state_hash: String,
    status: String,
    user_id: Option<String>,
    login_url_nonce: String,
    expires_at: i64,
) -> (r: AuthSession)
    ensures
        r@ == (AuthSessionView {
            id: id@,
            client_state_hash: client_state_hash@,
            status: status@,
            user_id: sqlite::read_back(text::opt_text(user_id)),
            login_url_nonce: login_url_nonce@,
            expires_at,
        }),
{
    AuthSession {
        id,
        client_state_hash,
        status,
        user_id: or_empty(user_id),
        login_url_nonce,
        expires_at,
    }
}

/// The query for the login that meets a condition.
pub fn auth_session_sql(clause: &str) -> (r: String)
    ensures
        r@ == "SELECT id, client_state_hash, status, user_id, login_url_nonce, expires_at FROM auth_sessions WHERE "@
            + clause@,
{
    cat2(
        "SELECT id, client_state_hash, status, user_id, login_url_nonce, expires_at FROM auth_sessions WHERE ",
        clause,
    )
}

/// Whether a login was begun with this state of the client.
pub fn match_client_state(session: &AuthSession, client_state: &str) -> (r: bool)
    ensures
        r == (session@.client_state_hash == encoding::secret_hash(client_state@)),
{
    same(session.client_state_hash.as_str(), hash_secret(client_state).as_str())
}

/// The state of a new login at a provider.
pub open spec fn login_state_of(
    input: LoginStateInputView,
    ttl: Span,
    id: Seq<char>,
    now: i64,
) -> LoginStateView {
    LoginStateView {
        id,
        provider_id: input.provider_id,
        nonce: input.nonce,
        login_url_nonce: input.login_url_nonce,
        return_path: input.return_path,
        private_state: input.private_state,
        expires_at: end_of(now, ttl),
    }
}

/// The state of a new login at a provider, under this identifier, at the time `now`.
pub fn new_login_state_at(input: LoginStateInput, ttl: Span, id: String, now: i64) -> (r: LoginState)
    requires
        ends(now, ttl),
    ensures
        r@ == login_state_of(input@, ttl, id@, now),
{
    LoginState {
        id,
        provider_id: input.provider_id,
        nonce: input.nonce,
        login_url_nonce: input.login_url_nonce,
        return_path: input.return_path,
        private_state: input.private_state,
        expires_at: now + ttl_seconds(ttl),
    }
}

/// What may be missing of the state of a login.
#[derive(Debug, PartialEq, Eq)]
pub struct LoginStateTexts {
    pub nonce: Option<String>,
    pub login_url_nonce: Option<String>,
    pub return_path: Option<String>,
}

/// What is stored of what may be missing of the state of a login.
pub fn login_state_texts(state: &LoginState) -> (r: LoginStateTexts)
    ensures
        text::opt_text(r.nonce) == sqlite::stored(state@.nonce),
        text::opt_text(r.login_url_nonce) == sqlite::stored(state@.login_url_nonce),
        text::opt_text(r.return_path) == sqlite::stored(state@.return_path),
{
    LoginStateTexts {
        nonce: none_if_empty(state.nonce.as_str()),
        login_url_nonce: none_if_empty(state.login_url_nonce.as_str()),
        return_path: none_if_empty(state.return_path.as_str()),
    }
}

/// The state of a login as it is stored, and when it was used.
#[derive(Debug, PartialEq, Eq)]
pub struct StoredLoginState {
    pub state: LoginState,
    pub consumed_at: i64,
}

/// The state of a login as it is read.
pub fn login_state_from_row(
    id: String,
    provider_id: String,
    texts: LoginStateTexts,
    private_state: Option<Vec<u8>>,
    expires_at: i64,
    consumed_at: Option<i64>,
) -> (r: StoredLoginState)
    ensures
        r.state@ == (LoginStateView {
            id: id@,
            provider_id: provider_id@,
            nonce: sqlite::read_back(text::opt_text(texts.nonce)),
            login_url_nonce: sqlite::read_back(text::opt_text(texts.login_url_nonce)),
            return_path: sqlite::read_back(text::opt_text(texts.return_path)),
            private_state: match private_state {
                Some(bytes) => bytes@,
                None => Seq::empty(),
            },
            expires_at,
        }),
        r.consumed_at == match consumed_at {
            Some(t) => t,
            None => 0,
        },
{
    let private_state = match private_state {
        Some(bytes) => bytes,
        None => {
            let none: Vec<u8> = Vec::new();
            assert(none@ =~= Seq::<u8>::empty());
            none
        },
    };
    StoredLoginState {
        state: LoginState {
            id,
            provider_id,
            nonce: or_empty(texts.nonce),
            login_url_nonce: or_empty(texts.login_url_nonce),
            return_path: or_empty(texts.return_path),
            private_state,
            expires_at,
        },
        consumed_at: or_zero(consumed_at),
    }
}

/// The state of a login, unless there is none, it is over or it was used.
pub open spec fn usable(found: Option<(LoginStateView, i64)>, now: i64) -> Result<
    LoginStateView,
    CoreErrorView,
> {
    match found {
        Some((state, consumed_at)) => if consumed_at != 0 || state.expires_at <= now {
            Err(CoreErrorView::NotFound)
        } else {
            Ok(state)
        },
        None => Err(CoreErrorView::NotFound),
    }
}

/// The state of a login, unless there is none, it is over or it was used.
pub fn usable_login_state(found: Option<StoredLoginState>, now: i64) -> (r: Result<
    LoginState,
    CoreError,
>)
    ensures
        error::outcome(r) == usable(
            match found {
                Some(s) => Some((s.state@, s.consumed_at)),
                None => None,
            },
            now,
        ),
{
    match found {
        Some(stored) => if stored.consumed_at != 0 || stored.state.expires_at <= now {
            Err(CoreError::NotFound)
        } else {
            Ok(stored.state)
        },
        None => Err(CoreError::NotFound),
    }
}

/// A new session of a browser, under this identifier, at the time `now`.
pub fn new_browser_session_at(user_id: &str, ttl: Span, id: String, now: i64) -> (r: BrowserSession)
    requires
        ends(now, ttl),
    ensures
        r@ == (BrowserSessionView { id: id@, user_id: user_id@, expires_at: end_of(now, ttl) }),
{
    BrowserSession { id, user_id: user_id.to_owned(), expires_at: now + ttl_seconds(ttl) }
}

/// A token against forged requests as it is stored.
#[derive(Debug, PartialEq, Eq)]
pub struct CsrfRow {
    pub token_hash: String,
    pub session_id: String,
    pub created_at: i64,
    pub expires_at: i64,
}

/// A new token against forged requests as it is stored, at the time `now`.
pub fn csrf_row_at(token: &str, session_id: &str, ttl: Span, now: i64) -> (r: CsrfRow)
    requires
        ends(now, ttl),
    ensures
        r.token_hash@ == encoding::secret_hash(token@),
        r.session_id@ == session_id@,
        r.created_at == now,
        r.expires_at == end_of(now, ttl),
{
    CsrfRow {
        token_hash: hash_secret(token),
        session_id: session_id.to_owned(),
        created_at: now,
        expires_at: now + ttl_seconds(ttl),
    }
}

/// A login is found until it is over, and then no more.
pub proof fn law_login_lasts_as_asked(
    client_state: Seq<char>,
    ttl: Span,
    id: Seq<char>,
    nonce: Seq<char>,
    now: i64,
    later: i64,
)
    requires
        ends(now, ttl),
    ensures
        ({
            let session = auth_session_of(client_state, ttl, id, nonce, now);
            live(Some(session), later) is Ok <==> later < now + time::whole_seconds(ttl)
        }),
{
}

/// The state of a login is good once: when it was used it is refused.
pub proof fn law_login_state_is_good_once(state: LoginStateView, used_at: i64, now: i64)
    requires
        used_at != 0,
    ensures
        usable(Some((state, used_at)), now) == Err::<LoginStateView, _>(CoreErrorView::NotFound),
        usable(Some((state, 0)), now) is Ok <==> now < state.expires_at,
{
}

} // verus!
