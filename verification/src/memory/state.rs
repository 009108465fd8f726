//! Logins under way, browser sessions and tokens against forged requests.

use vstd::prelude::*;

use crate::encoding;
use crate::encoding::hash_secret;
use crate::error;
use crate::error::{CoreError, CoreErrorView};
use crate::ids;
use crate::ids::new_id;
use crate::memory::{CsrfToken, CsrfTokenView, Store, StoreView};
use crate::model::{
    AuthSession, AuthSessionView, BrowserSession, BrowserSessionView, LoginState, LoginStateInput,
    LoginStateInputView, LoginStateView, User, UserView,
};
use crate::table;
use crate::text::same;
use crate::time;
use crate::time::{later, now_unix, ttl_seconds, Span};

verus! {

/// The login that a client waits for from the time `now` on.
pub open spec fn new_auth_session(
    client_state: Seq<char>,
    ttl: Span,
    now: i64,
    id: Seq<char>,
    nonce: Seq<char>,
) -> AuthSessionView {
    AuthSessionView {
        id,
        client_state_hash: encoding::secret_hash(client_state),
        status: "pending"@,
        user_id: Seq::empty(),
        login_url_nonce: nonce,
        expires_at: time::time_after(now, time::whole_seconds(ttl)),
    }
}

/// What is remembered from the time `now` on while a user is at the identity provider.
pub open spec fn new_login_state(
    input: LoginStateInputView,
    ttl: Span,
    now: i64,
    id: Seq<char>,
) -> LoginStateView {
    LoginStateView {
        id,
        provider_id: input.provider_id,
        nonce: input.nonce,
        login_url_nonce: input.login_url_nonce,
        return_path: input.return_path,
        private_state: input.private_state,
        expires_at: time::time_after(now, time::whole_seconds(ttl)),
    }
}

/// A session as long as it is not over at the time `now`.
pub open spec fn unless_over(session: AuthSessionView, now: i64) -> Result<
    AuthSessionView,
    CoreErrorView,
> {
    if session.expires_at <= now {
        Err(CoreErrorView::AuthSessionNotFound)
    } else {
        Ok(session)
    }
}

/// The login once the user is known.
pub open spec fn completed(session: AuthSessionView, user_id: Seq<char>) -> AuthSessionView {
    AuthSessionView { status: "completed"@, user_id, ..session }
}

/// The login once the client was told.
pub open spec fn used_up(session: AuthSessionView) -> AuthSessionView {
    AuthSessionView { status: "consumed"@, ..session }
}

impl StoreView {
    /// The store with one more login, to be found by its code.
    pub open spec fn with_new_auth_session(
        self,
        code: Seq<char>,
        session: AuthSessionView,
    ) -> StoreView {
        StoreView {
            auth_sessions: self.auth_sessions.insert(session.id, session),
            auth_session_codes: self.auth_session_codes.insert(
                encoding::secret_hash(code),
                session.id,
            ),
            ..self
        }
    }

    /// The store with a login changed.
    pub open spec fn with_auth_session(self, k: Seq<char>, session: AuthSessionView) -> StoreView {
        StoreView { auth_sessions: self.auth_sessions.insert(k, session), ..self }
    }

    /// The login with a code, as long as it is not over at the time `now`.
    pub open spec fn auth_session_by_code(self, code: Seq<char>, now: i64) -> Result<
        AuthSessionView,
        CoreErrorView,
    > {
        let hash = encoding::secret_hash(code);
        if self.auth_session_codes.contains_key(hash) && self.auth_sessions.contains_key(
            self.auth_session_codes[hash],
        ) {
            unless_over(self.auth_sessions[self.auth_session_codes[hash]], now)
        } else {
            Err(CoreErrorView::AuthSessionNotFound)
        }
    }

    /// Whether `k` is a login with that nonce.
    pub open spec fn has_nonce(self, k: Seq<char>, nonce: Seq<char>) -> bool {
        self.auth_sessions.contains_key(k) && self.auth_sessions[k].login_url_nonce == nonce
    }

    /// Whether `r` may be the answer for the login with a nonce at the time `now`.
    pub open spec fn is_by_nonce(
        self,
        nonce: Seq<char>,
        now: i64,
        r: Result<AuthSessionView, CoreErrorView>,
    ) -> bool {
        if exists|k: Seq<char>| self.has_nonce(k, nonce) {
            exists|k: Seq<char>| #[trigger]
                self.has_nonce(k, nonce) && r == unless_over(self.auth_sessions[k], now)
        } else {
            r == Err::<AuthSessionView, CoreErrorView>(CoreErrorView::AuthSessionNotFound)
        }
    }

    /// Whether the login `id` has the status `status` and is not over at the time `now`.
    pub open spec fn is_at(self, id: Seq<char>, status: Seq<char>, now: i64) -> bool {
        &&& self.auth_sessions.contains_key(id)
        &&& self.auth_sessions[id].status == status
        &&& self.auth_sessions[id].expires_at > now
    }

    /// The store once the user of the login `id` is known.
    pub open spec fn after_completion(self, id: Seq<char>, user_id: Seq<char>) -> StoreView {
        self.with_auth_session(id, completed(self.auth_sessions[id], user_id))
    }

    /// The store once the client of the login `id` was told.
    pub open spec fn after_use(self, id: Seq<char>) -> StoreView {
        self.with_auth_session(id, used_up(self.auth_sessions[id]))
    }

    /// The store with a login state, to be found by its secret.
    pub open spec fn with_login_state(self, secret: Seq<char>, state: LoginStateView) -> StoreView {
        StoreView {
            login_states: self.login_states.insert(encoding::secret_hash(secret), state),
            ..self
        }
    }

    /// The store without the login state with that secret.
    pub open spec fn without_login_state(self, secret: Seq<char>) -> StoreView {
        StoreView { login_states: self.login_states.remove(encoding::secret_hash(secret)), ..self }
    }

    /// The login state with a secret, as long as it is not over at the time `now`.
    pub open spec fn login_state(self, secret: Seq<char>, now: i64) -> Result<
        LoginStateView,
        CoreErrorView,
    > {
        let hash = encoding::secret_hash(secret);
        if self.login_states.contains_key(hash) && self.login_states[hash].expires_at > now {
            Ok(self.login_states[hash])
        } else {
            Err(CoreErrorView::NotFound)
        }
    }

    /// The user who is logged in with a browser, as long as the user is active.
    pub open spec fn browser_user(self, session_id: Seq<char>) -> Result<UserView, CoreErrorView> {
        if self.browser_sessions.contains_key(session_id) && self.active_user(
            self.browser_sessions[session_id],
        ) is Ok {
            self.active_user(self.browser_sessions[session_id])
        } else {
            Err(CoreErrorView::NotFound)
        }
    }

    /// The store with a token against forged requests.
    pub open spec fn with_csrf(self, token: Seq<char>, csrf: CsrfTokenView) -> StoreView {
        StoreView {
            csrf_tokens: self.csrf_tokens.insert(encoding::secret_hash(token), csrf),
            ..self
        }
    }

    /// Whether a token is good for one request of a session at the time `now`.
    pub open spec fn csrf_good(self, session_id: Seq<char>, token: Seq<char>, now: i64) -> bool {
        let hash = encoding::secret_hash(token);
        &&& self.csrf_tokens.contains_key(hash)
        &&& self.csrf_tokens[hash].session_id == session_id
        &&& !self.csrf_tokens[hash].consumed
        &&& self.csrf_tokens[hash].expires_at > now
    }

    /// The store once a token was used.
    pub open spec fn after_csrf(self, token: Seq<char>) -> StoreView {
        self.with_csrf(
            token,
            CsrfTokenView {
                consumed: true,
                ..self.csrf_tokens[encoding::secret_hash(token)]
            },
        )
    }
}

impl Store {
    /// Lets a client wait for a login from the time `now` on.
    pub fn create_auth_session_at(
        &mut self,
        client_state: &str,
        ttl: Span,
        now: i64,
        code: String,
        id: String,
        nonce: String,
    ) -> (r: Result<(String, AuthSession), CoreError>)
        requires
            old(self).wf(),
            now >= 0,
        ensures
            final(self).wf(),
            r matches Ok((c, session)) && c@ == code@ && session@ == new_auth_session(
                client_state@,
                ttl,
                now,
                id@,
                nonce@,
            ) && final(self)@ == old(self)@.with_new_auth_session(code@, session@),
    {
        let ghost before = self@;
        let session = AuthSession {
            id: id.clone(),
            client_state_hash: hash_secret(client_state),
            status: "pending".to_owned(),
            user_id: String::new(),
            login_url_nonce: nonce.clone(),
            expires_at: later(now, ttl_seconds(ttl)),
        };
        assert(session@ =~= new_auth_session(client_state@, ttl, now, id@, nonce@));
        self.auth_session_codes.insert(hash_secret(code.as_str()), id.clone());
        self.auth_sessions.insert(id, session.clone());
        assert(self@ =~= before.with_new_auth_session(code@, session@));
        Ok((code, session))
    }

    /// Lets a client wait for a login.
    pub fn create_auth_session(&mut self, client_state: &str, ttl: Span) -> (r: Result<
        (String, AuthSession),
        CoreError,
    >)
        requires
            old(self).wf(),
        ensures
            final(self).wf(),
            r matches Ok((code, session)) && {
                &&& ids::is_uuid(code@)
                &&& ids::is_uuid(session@.id)
                &&& ids::is_uuid(session@.login_url_nonce)
                &&& exists|now: i64|
                    now >= 0 && session@ == #[trigger] new_auth_session(
                        client_state@,
                        ttl,
                        now,
                        session@.id,
                        session@.login_url_nonce,
                    )
                &&& final(self)@ == old(self)@.with_new_auth_session(code@, session@)
            },
    {
        let now: i64 = now_unix();
        let code = new_id();
        let id = new_id();
        let nonce = new_id();
        let ghost made = new_auth_session(client_state@, ttl, now, id@, nonce@);
        let r = self.create_auth_session_at(client_state, ttl, now, code, id, nonce);
        assert(made == new_auth_session(
            client_state@,
            ttl,
            now,
            made.id,
            made.login_url_nonce,
        ));
        r
    }

    /// The login with a code, at the time `now`.
    pub fn get_auth_session_by_code_at(&self, code: &str, now: i64) -> (r: Result<
        AuthSession,
        CoreError,
    >)
        requires
            self.wf(),
        ensures
            error::outcome(r) == self@.auth_session_by_code(code@, now),
    {
        let id = match self.auth_session_codes.get(&hash_secret(code)) {
            Some(id) => id,
            None => {
                return Err(CoreError::AuthSessionNotFound);
            },
        };
        match self.auth_sessions.get(id) {
            Some(session) => not_expired(session.clone(), now),
            None => Err(CoreError::AuthSessionNotFound),
        }
    }

    /// The login with a code.
    pub fn get_auth_session_by_code(&self, code: &str) -> (r: Result<AuthSession, CoreError>)
        requires
            self.wf(),
        ensures
            exists|now: i64|
                now >= 0 && error::outcome(r) == #[trigger] self@.auth_session_by_code(code@, now),
    {
        let now: i64 = now_unix();
        self.get_auth_session_by_code_at(code, now)
    }

    /// A login with a nonce, at the time `now`.
    pub fn get_auth_session_by_nonce_at(&self, nonce: &str, now: i64) -> (r: Result<
        AuthSession,
        CoreError,
    >)
        requires
            self.wf(),
        ensures
            self@.is_by_nonce(nonce@, now, error::outcome(r)),
    {
        proof {
            table::lemma_map_of(self.auth_sessions.rows());
        }
        let mut i: usize = 0;
        while i < self.auth_sessions.len()
            invariant
                self.wf(),
                i <= self.auth_sessions.rows().len(),
                forall|j: int|
                    0 <= j < i ==> (#[trigger] self.auth_sessions.rows()[j]).1.login_url_nonce
                        != nonce@,
            decreases self.auth_sessions.rows().len() - i,
        {
            proof {
                table::lemma_map_of(self.auth_sessions.rows());
            }
            let session = self.auth_sessions.value_at(i);
            let ghost k = self.auth_sessions.rows()[i as int].0;
            assert(self@.auth_sessions.contains_key(k));
            if same(session.login_url_nonce.as_str(), nonce) {
                assert(self@.has_nonce(k, nonce@));
                return not_expired(session.clone(), now);
            }
            i += 1;
        }
        proof {
            assert forall|k: Seq<char>| !self@.has_nonce(k, nonce@) by {
                if self@.auth_sessions.contains_key(k) {
                    let j = table::row_of(self.auth_sessions.rows(), k);
                    assert(self.auth_sessions.rows()[j].0 == k);
                }
            }
        }
        Err(CoreError::AuthSessionNotFound)
    }

    /// A login with a nonce.
    pub fn get_auth_session_by_nonce(&self, nonce: &str) -> (r: Result<AuthSession, CoreError>)
        requires
            self.wf(),
        ensures
            exists|now: i64|
                now >= 0 && #[trigger] self@.is_by_nonce(nonce@, now, error::outcome(r)),
    {
        let now: i64 = now_unix();
        self.get_auth_session_by_nonce_at(nonce, now)
    }

    /// Tells whose login it is, at the time `now`.
    pub fn complete_auth_session_at(&mut self, id: &str, user_id: &str, now: i64) -> (r: Result<
        (),
        CoreError,
    >)
        requires
            old(self).wf(),
        ensures
            final(self).wf(),
            match r {
                Ok(_) => old(self)@.is_at(id@, "pending"@, now) && final(self)@
                    == old(self)@.after_completion(id@, user_id@),
                Err(e) => e@ == CoreErrorView::AuthSessionNotFound && !old(self)@.is_at(
                    id@,
                    "pending"@,
                    now,
                ) && final(self)@ == old(self)@,
            },
    {
        let mut session = match self.auth_sessions.get(&id.to_owned()) {
            Some(session) => session.clone(),
            None => {
                return Err(CoreError::AuthSessionNotFound);
            },
        };
        if !same(session.status.as_str(), "pending") || session.expires_at <= now {
            return Err(CoreError::AuthSessionNotFound);
        }
        session.status = "completed".to_owned();
        session.user_id = user_id.to_owned();
        self.put_auth_session(id, session);
        Ok(())
    }

    /// Tells whose login it is.
    pub fn complete_auth_session(&mut self, id: &str, user_id: &str) -> (r: Result<(), CoreError>)
        requires
            old(self).wf(),
        ensures
            final(self).wf(),
            exists|now: i64|
                now >= 0 && #[trigger] old(self)@.is_at(id@, "pending"@, now) == (r is Ok),
            match r {
                Ok(_) => final(self)@ == old(self)@.after_completion(id@, user_id@),
                Err(e) => e@ == CoreErrorView::AuthSessionNotFound && final(self)@ == old(self)@,
            },
    {
        let now: i64 = now_unix();
        let r = self.complete_auth_session_at(id, user_id, now);
        assert(old(self)@.is_at(id@, "pending"@, now) == (r is Ok));
        r
    }

    /// Tells the client about a login, once, at the time `now`.
    pub fn consume_auth_session_at(&mut self, id: &str, now: i64) -> (r: Result<(), CoreError>)
        requires
            old(self).wf(),
        ensures
            final(self).wf(),
            match r {
                Ok(_) => old(self)@.is_at(id@, "completed"@, now) && final(self)@ == old(self)@.after_use(id@),
                Err(e) => e@ == CoreErrorView::AuthSessionNotFound && !old(self)@.is_at(
                    id@,
                    "completed"@,
                    now,
                ) && final(self)@ == old(self)@,
            },
    {
        let mut session = match self.auth_sessions.get(&id.to_owned()) {
            Some(session) => session.clone(),
            None => {
                return Err(CoreError::AuthSessionNotFound);
            },
        };
        if !same(session.status.as_str(), "completed") || session.expires_at <= now {
            return Err(CoreError::AuthSessionNotFound);
        }
        session.status = "consumed".to_owned();
        self.put_auth_session(id, session);
        Ok(())
    }

    /// Tells the client about a login, once.
    pub fn consume_auth_session(&mut self, id: &str) -> (r: Result<(), CoreError>)
        requires
            old(self).wf(),
        ensures
            final(self).wf(),
            exists|now: i64|
                now >= 0 && #[trigger] old(self)@.is_at(id@, "completed"@, now) == (r is Ok),
            match r {
                Ok(_) => final(self)@ == old(self)@.after_use(id@),
                Err(e) => e@ == CoreErrorView::AuthSessionNotFound && final(self)@ == old(self)@,
            },
    {
        let now: i64 = now_unix();
        let r = self.consume_auth_session_at(id, now);
        assert(old(self)@.is_at(id@, "completed"@, now) == (r is Ok));
        r
    }

    fn put_auth_session(&mut self, id: &str, session: AuthSession)
        requires
            old(self).wf(),
        ensures
            final(self).wf(),
            final(self)@ == old(self)@.with_auth_session(id@, session@),
    {
        let ghost before = self@;
        let ghost view = session@;
        self.auth_sessions.insert(id.to_owned(), session);
        assert(self@ =~= before.with_auth_session(id@, view));
    }

    /// Remembers a login from the time `now` on, under a secret.
    pub fn create_login_state_at(
        &mut self,
        input: LoginStateInput,
        ttl: Span,
        now: i64,
        secret: String,
        id: String,
    ) -> (r: Result<(String, LoginState), CoreError>)
        requires
            old(self).wf(),
            now >= 0,
        ensures
            final(self).wf(),
            r matches Ok((s, state)) && s@ == secret@ && state@ == new_login_state(
                input@,
                ttl,
                now,
                id@,
            ) && final(self)@ == old(self)@.with_login_state(secret@, state@),
    {
        let ghost before = self@;
        let state = LoginState {
            id,
            provider_id: input.provider_id,
            nonce: input.nonce,
            login_url_nonce: input.login_url_nonce,
            return_path: input.return_path,
            private_state: input.private_state,
            expires_at: later(now, ttl_seconds(ttl)),
        };
        self.login_states.insert(hash_secret(secret.as_str()), state.clone());
        assert(self@ =~= before.with_login_state(secret@, state@));
        Ok((secret, state))
    }

    /// Remembers a login under a new secret.
    pub fn create_login_state(&mut self, input: LoginStateInput, ttl: Span) -> (r: Result<
        (String, LoginState),
        CoreError,
    >)
        requires
            old(self).wf(),
        ensures
            final(self).wf(),
            r matches Ok((secret, state)) && {
                &&& ids::is_uuid(secret@)
                &&& ids::is_uuid(state@.id)
                &&& exists|now: i64|
                    now >= 0 && state@ == #[trigger] new_login_state(input@, ttl, now, state@.id)
                &&& final(self)@ == old(self)@.with_login_state(secret@, state@)
            },
    {
        let now: i64 = now_unix();
        let secret = new_id();
        let id = new_id();
        let ghost made = new_login_state(input@, ttl, now, id@);
        let r = self.create_login_state_at(input, ttl, now, secret, id);
        assert(made == new_login_state(input@, ttl, now, made.id));
        r
    }

    /// Remembers more of a login, at the time `now`.
    pub fn set_login_state_private_state_at(
        &mut self,
        secret: &str,
        private_state: Vec<u8>,
        now: i64,
    ) -> (r: Result<(), CoreError>)
        requires
            old(self).wf(),
        ensures
            final(self).wf(),
            match old(self)@.login_state(secret@, now) {
                Ok(state) => r is Ok && final(self)@ == old(self)@.with_login_state(
                    secret@,
                    LoginStateView { private_state: private_state@, ..state },
                ),
                Err(e) => error::outcome(r) == Err::<(), CoreErrorView>(e) && final(self)@ == old(self)@,
            },
    {
        let ghost before = self@;
        let hash = hash_secret(secret);
        let mut state = match self.login_states.get(&hash) {
            Some(state) => state.clone(),
            None => {
                return Err(CoreError::NotFound);
            },
        };
        if state.expires_at <= now {
            return Err(CoreError::NotFound);
        }
        state.private_state = private_state;
        let ghost view = state@;
        self.login_states.insert(hash, state);
        assert(self@ =~= before.with_login_state(secret@, view));
        Ok(())
    }

    /// Remembers more of a login.
    pub fn set_login_state_private_state(&mut self, secret: &str, private_state: Vec<u8>) -> (r:
        Result<(), CoreError>)
        requires
            old(self).wf(),
        ensures
            final(self).wf(),
            exists|now: i64|
                now >= 0 && match #[trigger] old(self)@.login_state(secret@, now) {
                    Ok(state) => r is Ok && final(self)@ == old(self)@.with_login_state(
                        secret@,
                        LoginStateView { private_state: private_state@, ..state },
                    ),
                    Err(e) => error::outcome(r) == Err::<(), CoreErrorView>(e) && final(self)@
                        == old(self)@,
                },
    {
        let now: i64 = now_unix();
        let r = self.set_login_state_private_state_at(secret, private_state, now);
        assert(old(self)@.login_state(secret@, now) is Ok || r is Err);
        r
    }

    /// Takes back what was remembered of a login, once, at the time `now`.
    pub fn consume_login_state_at(&mut self, secret: &str, now: i64) -> (r: Result<
        LoginState,
        CoreError,
    >)
        requires
            old(self).wf(),
        ensures
            final(self).wf(),
            error::outcome(r) == old(self)@.login_state(secret@, now),
            final(self)@ == old(self)@.without_login_state(secret@),
    {
        let ghost before = self@;
        let removed = self.login_states.remove(&hash_secret(secret));
        assert(self@ =~= before.without_login_state(secret@));
        match removed {
            Some(state) => if state.expires_at > now {
                Ok(state)
            } else {
                Err(CoreError::NotFound)
            },
            None => Err(CoreError::NotFound),
        }
    }

    /// Takes back what was remembered of a login, once.
    pub fn consume_login_state(&mut self, secret: &str) -> (r: Result<LoginState, CoreError>)
        requires
            old(self).wf(),
        ensures
            final(self).wf(),
            exists|now: i64|
                now >= 0 && error::outcome(r) == #[trigger] old(self)@.login_state(secret@, now),
            final(self)@ == old(self)@.without_login_state(secret@),
    {
        let now: i64 = now_unix();
        self.consume_login_state_at(secret, now)
    }

    /// Logs a user in with a browser from the time `now` on.
    pub fn create_browser_session_at(&mut self, user_id: &str, ttl: Span, now: i64, id: String) -> (r:
        Result<BrowserSession, CoreError>)
        requires
            old(self).wf(),
            now >= 0,
        ensures
            final(self).wf(),
            r matches Ok(session) && session@ == (BrowserSessionView {
                id: id@,
                user_id: user_id@,
                expires_at: time::time_after(now, time::whole_seconds(ttl)),
            }) && final(self)@ == (StoreView {
                browser_sessions: old(self)@.browser_sessions.insert(id@, user_id@),
                ..old(self)@
            }),
    {
        let ghost before = self@;
        let session = BrowserSession {
            id: id.clone(),
            user_id: user_id.to_owned(),
            expires_at: later(now, ttl_seconds(ttl)),
        };
        self.browser_sessions.insert(id, session.user_id.clone());
        assert(self@ =~= (StoreView {
            browser_sessions: before.browser_sessions.insert(id@, user_id@),
            ..before
        }));
        Ok(session)
    }

    /// Logs a user in with a browser.
    pub fn create_browser_session(&mut self, user_id: &str, ttl: Span) -> (r: Result<
        BrowserSession,
        CoreError,
    >)
        requires
            old(self).wf(),
        ensures
            final(self).wf(),
            r matches Ok(session) && {
                &&& ids::is_uuid(session@.id)
                &&& session@.user_id == user_id@
                &&& exists|now: i64|
                    now >= 0 && session@.expires_at == #[trigger] time::time_after(
                        now,
                        time::whole_seconds(ttl),
                    )
                &&& final(self)@ == (StoreView {
                    browser_sessions: old(self)@.browser_sessions.insert(session@.id, user_id@),
                    ..old(self)@
                })
            },
    {
        let now: i64 = now_unix();
        let id = new_id();
        self.create_browser_session_at(user_id, ttl, now, id)
    }

    /// The user who is logged in with a browser.
    pub fn user_by_browser_session(&self, session_id: &str) -> (r: Result<User, CoreError>)
        requires
            self.wf(),
        ensures
            error::outcome(r) == self@.browser_user(session_id@),
    {
        let user_id = match self.browser_sessions.get(&session_id.to_owned()) {
            Some(user_id) => user_id,
            None => {
                return Err(CoreError::NotFound);
            },
        };
        match self.active_user(user_id.as_str()) {
            Ok(user) => Ok(user.clone()),
            Err(_) => Err(CoreError::NotFound),
        }
    }

    /// Logs a browser out.
    pub fn revoke_browser_session(&mut self, session_id: &str) -> (r: Result<(), CoreError>)
        requires
            old(self).wf(),
        ensures
            final(self).wf(),
            r is Ok,
            final(self)@ == (StoreView {
                browser_sessions: old(self)@.browser_sessions.remove(session_id@),
                ..old(self)@
            }),
    {
        let ghost before = self@;
        let _ = self.browser_sessions.remove(&session_id.to_owned());
        assert(self@ =~= (StoreView {
            browser_sessions: before.browser_sessions.remove(session_id@),
            ..before
        }));
        Ok(())
    }

    /// Gives out a token against forged requests from the time `now` on.
    pub fn create_csrf_token_at(&mut self, session_id: &str, ttl: Span, now: i64, token: String) -> (r:
        Result<String, CoreError>)
        requires
            old(self).wf(),
            now >= 0,
        ensures
            final(self).wf(),
            r matches Ok(t) && t@ == token@ && final(self)@ == old(self)@.with_csrf(
                token@,
                CsrfTokenView {
                    session_id: session_id@,
                    expires_at: time::time_after(now, time::whole_seconds(ttl)),
                    consumed: false,
                },
            ),
    {
        let ghost before = self@;
        let csrf = CsrfToken {
            session_id: session_id.to_owned(),
            expires_at: later(now, ttl_seconds(ttl)),
            consumed: false,
        };
        let ghost view = csrf@;
        self.csrf_tokens.insert(hash_secret(token.as_str()), csrf);
        assert(self@ =~= before.with_csrf(token@, view));
        Ok(token)
    }

    /// Gives out a token against forged requests.
    pub fn create_csrf_token(&mut self, session_id: &str, ttl: Span) -> (r: Result<
        String,
        CoreError,
    >)
        requires
            old(self).wf(),
        ensures
            final(self).wf(),
            r matches Ok(token) && ids::is_uuid(token@) && exists|now: i64|
                {
                    &&& now >= 0
                    &&& final(self)@ == old(self)@.with_csrf(
                        token@,
                        CsrfTokenView {
                            session_id: session_id@,
                            expires_at: #[trigger] time::time_after(now, time::whole_seconds(ttl)),
                            consumed: false,
                        },
                    )
                },
    {
        let now: i64 = now_unix();
        let token = new_id();
        self.create_csrf_token_at(session_id, ttl, now, token)
    }

    /// Uses a token against forged requests, once, at the time `now`.
    pub fn consume_csrf_token_at(&mut self, session_id: &str, token: &str, now: i64) -> (r: Result<
        (),
        CoreError,
    >)
        requires
            old(self).wf(),
        ensures
            final(self).wf(),
            match r {
                Ok(_) => old(self)@.csrf_good(session_id@, token@, now) && final(self)@
                    == old(self)@.after_csrf(token@),
                Err(e) => e@ == CoreErrorView::NotFound && !old(self)@.csrf_good(
                    session_id@,
                    token@,
                    now,
                ) && final(self)@ == old(self)@,
            },
    {
        let ghost before = self@;
        let hash = hash_secret(token);
        let csrf = match self.csrf_tokens.get(&hash) {
            Some(csrf) => CsrfToken {
                session_id: csrf.session_id.clone(),
                expires_at: csrf.expires_at,
                consumed: csrf.consumed,
            },
            None => {
                return Err(CoreError::NotFound);
            },
        };
        if !same(csrf.session_id.as_str(), session_id) || csrf.consumed || csrf.expires_at <= now {
            return Err(CoreError::NotFound);
        }
        let used = CsrfToken { consumed: true, ..csrf };
        self.csrf_tokens.insert(hash, used);
        assert(self@ =~= before.after_csrf(token@));
        Ok(())
    }

    /// Uses a token against forged requests, once.
    pub fn consume_csrf_token(&mut self, session_id: &str, token: &str) -> (r: Result<
        (),
        CoreError,
    >)
        requires
            old(self).wf(),
        ensures
            final(self).wf(),
            exists|now: i64|
                now >= 0 && #[trigger] old(self)@.csrf_good(session_id@, token@, now) == (r is Ok),
            match r {
                Ok(_) => final(self)@ == old(self)@.after_csrf(token@),
                Err(e) => e@ == CoreErrorView::NotFound && final(self)@ == old(self)@,
            },
    {
        let now: i64 = now_unix();
        let r = self.consume_csrf_token_at(session_id, token, now);
        assert(old(self)@.csrf_good(session_id@, token@, now) == (r is Ok));
        r
    }

    /// Whether a login is the one that a client began with this state.
    pub fn match_client_state(&self, session: &AuthSession, client_state: &str) -> (r: bool)
        ensures
            r == (session@.client_state_hash == encoding::secret_hash(client_state@)),
    {
        same(session.client_state_hash.as_str(), hash_secret(client_state).as_str())
    }
}

/// A session as long as it is not over at the time `now`.
pub fn not_expired(session: AuthSession, now: i64) -> (r: Result<AuthSession, CoreError>)
    ensures
        error::outcome(r) == unless_over(session@, now),
{
    if session.expires_at <= now {
        Err(CoreError::AuthSessionNotFound)
    } else {
        Ok(session)
    }
}

} // verus!
