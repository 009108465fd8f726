//! What is kept of devices, sessions, logins, tokens and repositories, from what was
//! put in to what is found.

use vstd::prelude::*;

use crate::encoding;
use crate::error::CoreErrorView;
use crate::memory::{devices, resources, state, tokens, CsrfTokenView, StoreView};
use crate::model::{
    AuthSessionView, AuthnTokenInputView, AuthzTokenInputView, CreateDeviceAuthorizationInputView,
    DeviceAuthorizationView, LoginStateInputView, LoginStateView, ResourceView, UserView,
    VerifiedTokenView,
};
use crate::resource_id;
use crate::text;
use crate::time::Span;

verus! {

// ---------------------------------------------------------------------------
// Devices
// ---------------------------------------------------------------------------

/// A device names what was asked for. It is found by either of its codes, in whatever
/// case they are typed, and names the repository and the remote URL of the input; it
/// waits, for nobody, until its time is over. It names the same ones once it is
/// approved, once it is used and once it is over, and then names who approved it and
/// when.
pub proof fn law_device_names_what_was_asked_for(
    s: StoreView,
    input: CreateDeviceAuthorizationInputView,
    now: i64,
    id: Seq<char>,
    code: Seq<char>,
    user: Seq<char>,
    at: i64,
    later: i64,
)
    requires
        0 <= now,
        text::upper(text::trimmed(code)) == text::upper(text::trimmed(input.device_code)),
    ensures
        ({
            let device = devices::new_device(input, now, id);
            let made = s.with_new_device(input, device);
            let approved = made.after_approval(id, user, at);
            let used = approved.after_consumption(id, later);
            let over = made.after_expiry(id);
            &&& device.id == id
            &&& device.requested_repository_id == input.requested_repository_id
            &&& device.requested_remote_url == input.requested_remote_url
            &&& device.approved_user_id.len() == 0
            &&& device.status == "pending"@
            &&& device.created_at == now
            &&& device.approved_at == 0
            &&& device.consumed_at == 0
            &&& now + input.ttl.secs <= i64::MAX ==> device.expires_at == now + input.ttl.secs
            &&& now + input.ttl.secs > i64::MAX ==> device.expires_at == i64::MAX
            &&& made.device_by(made.user_code_index, input.user_code) == Ok::<_, CoreErrorView>(
                device,
            )
            &&& made.device_by(made.device_code_index, input.device_code) == Ok::<
                _,
                CoreErrorView,
            >(device)
            &&& made.device_by(made.device_code_index, code) == Ok::<_, CoreErrorView>(device)
            &&& approved.device_by(approved.user_code_index, input.user_code) matches Ok(d) && {
                &&& d.id == id
                &&& d.requested_repository_id == input.requested_repository_id
                &&& d.requested_remote_url == input.requested_remote_url
                &&& d.status == "approved"@
                &&& d.approved_user_id == user
                &&& d.approved_at == at
                &&& d.created_at == now
                &&& d.expires_at == device.expires_at
                &&& d.consumed_at == 0
            }
            &&& approved.device_by(approved.device_code_index, input.device_code)
                == approved.device_by(approved.user_code_index, input.user_code)
            &&& used.device_by(used.device_code_index, input.device_code) matches Ok(d) && {
                &&& d.id == id
                &&& d.requested_repository_id == input.requested_repository_id
                &&& d.requested_remote_url == input.requested_remote_url
                &&& d.status == "consumed"@
                &&& d.approved_user_id == user
                &&& d.approved_at == at
                &&& d.consumed_at == later
                &&& d.created_at == now
                &&& d.expires_at == device.expires_at
            }
            &&& used.device_by(used.user_code_index, input.user_code) == used.device_by(
                used.device_code_index,
                input.device_code,
            )
            &&& over.device_by(over.device_code_index, input.device_code) matches Ok(d) && {
                &&& d.id == id
                &&& d.requested_repository_id == input.requested_repository_id
                &&& d.requested_remote_url == input.requested_remote_url
                &&& d.status == "expired"@
                &&& d.approved_user_id.len() == 0
                &&& d.created_at == now
                &&& d.expires_at == device.expires_at
            }
        }),
{
}

/// A device can be approved while it waits and its time is not over, used once after
/// that, and never twice. A device whose time is over can be neither.
pub proof fn law_device_is_used_once(
    s: StoreView,
    input: CreateDeviceAuthorizationInputView,
    now: i64,
    id: Seq<char>,
    user: Seq<char>,
    at: i64,
    later: i64,
    any: i64,
)
    requires
        0 <= now,
    ensures
        ({
            let made = s.with_new_device(input, devices::new_device(input, now, id));
            let approved = made.after_approval(id, user, at);
            let used = approved.after_consumption(id, later);
            let over = made.after_expiry(id);
            &&& now + input.ttl.secs <= i64::MAX ==> (made.approvable(id, any) <==> any < now
                + input.ttl.secs)
            &&& !made.consumable(id)
            &&& !approved.approvable(id, any)
            &&& approved.consumable(id)
            &&& !used.approvable(id, any)
            &&& !used.consumable(id)
            &&& !over.approvable(id, any)
            &&& !over.consumable(id)
            &&& approved.after_expiry(id) == approved
            &&& used.after_expiry(id) == used
        }),
{
    reveal_strlit("pending");
    reveal_strlit("approved");
    reveal_strlit("consumed");
    reveal_strlit("expired");
    assert("pending"@[0] == 'p');
    assert("approved"@[0] == 'a');
    assert("consumed"@[0] == 'c');
    assert("expired"@[0] == 'e');
}

/// What happens to one device happens to no other.
pub proof fn law_devices_are_apart(
    s: StoreView,
    input: CreateDeviceAuthorizationInputView,
    device: DeviceAuthorizationView,
    user: Seq<char>,
    now: i64,
    other: Seq<char>,
)
    requires
        other != device.id,
    ensures
        ({
            let made = s.with_new_device(input, device);
            let id = device.id;
            &&& made.device_authorizations.contains_key(other)
                <==> s.device_authorizations.contains_key(other)
            &&& made.device_authorizations[other] == s.device_authorizations[other]
            &&& s.after_approval(id, user, now).device_authorizations[other]
                == s.device_authorizations[other]
            &&& s.after_consumption(id, now).device_authorizations[other]
                == s.device_authorizations[other]
            &&& s.after_expiry(id).device_authorizations[other] == s.device_authorizations[other]
            &&& made.users == s.users
            &&& made.grants == s.grants
            &&& made.resources == s.resources
        }),
{
}

/// A device is refused exactly if one of its codes or its repository is blank.
pub proof fn law_device_needs_codes_and_repository(input: CreateDeviceAuthorizationInputView)
    ensures
        devices::device_refusal(input) is Some <==> {
            ||| text::trimmed(input.device_code).len() == 0
            ||| text::trimmed(input.user_code).len() == 0
            ||| text::trimmed(input.requested_repository_id).len() == 0
        },
{
}

// ---------------------------------------------------------------------------
// Sessions
// ---------------------------------------------------------------------------

/// A session that is opened waits for a user under its nonce until its time is over.
/// It is found by its code until then, and by nobody afterwards. Completed, it names
/// the user; used, it names the user still; and each step can be taken once.
pub proof fn law_session_carries_its_user(
    s: StoreView,
    code: Seq<char>,
    client_state: Seq<char>,
    ttl: Span,
    now: i64,
    id: Seq<char>,
    nonce: Seq<char>,
    user: Seq<char>,
    any: i64,
)
    requires
        0 <= now,
    ensures
        ({
            let session = state::new_auth_session(client_state, ttl, now, id, nonce);
            let made = s.with_new_auth_session(code, session);
            let done = made.after_completion(id, user);
            let used = done.after_use(id);
            let end = if now + ttl.secs <= i64::MAX {
                now + ttl.secs
            } else {
                i64::MAX as int
            };
            &&& session.id == id
            &&& session.client_state_hash == encoding::secret_hash(client_state)
            &&& session.status == "pending"@
            &&& session.user_id.len() == 0
            &&& session.login_url_nonce == nonce
            &&& session.expires_at == end
            &&& any < end ==> made.auth_session_by_code(code, any) == Ok::<_, CoreErrorView>(
                session,
            )
            &&& any >= end ==> made.auth_session_by_code(code, any) == Err::<AuthSessionView, _>(
                CoreErrorView::AuthSessionNotFound,
            )
            &&& any < end ==> (done.auth_session_by_code(code, any) matches Ok(d) && {
                &&& d.id == id
                &&& d.user_id == user
                &&& d.status == "completed"@
                &&& d.client_state_hash == session.client_state_hash
                &&& d.login_url_nonce == nonce
                &&& d.expires_at == end
            })
            &&& any < end ==> (used.auth_session_by_code(code, any) matches Ok(d) && {
                &&& d.id == id
                &&& d.user_id == user
                &&& d.status == "consumed"@
                &&& d.client_state_hash == session.client_state_hash
                &&& d.login_url_nonce == nonce
                &&& d.expires_at == end
            })
            &&& made.is_at(id, "pending"@, any) <==> any < end
            &&& done.is_at(id, "completed"@, any) <==> any < end
            &&& !made.is_at(id, "completed"@, any)
            &&& !done.is_at(id, "pending"@, any)
            &&& !used.is_at(id, "pending"@, any)
            &&& !used.is_at(id, "completed"@, any)
        }),
{
    reveal_strlit("pending");
    reveal_strlit("completed");
    reveal_strlit("consumed");
    assert("pending"@[0] == 'p');
    assert("completed"@[2] == 'm');
    assert("consumed"@[2] == 'n');
}

/// A session that is looked up by its nonce has that nonce and is not over; where no
/// session has the nonce, none is found; and where one alone has it, it is that one.
pub proof fn law_session_is_found_by_its_nonce(
    s: StoreView,
    nonce: Seq<char>,
    now: i64,
    k: Seq<char>,
    r: Result<AuthSessionView, CoreErrorView>,
)
    requires
        s.is_by_nonce(nonce, now, r),
    ensures
        r is Err ==> r == Err::<AuthSessionView, _>(CoreErrorView::AuthSessionNotFound),
        r matches Ok(session) ==> session.login_url_nonce == nonce && session.expires_at > now,
        s.auth_sessions.contains_key(k) && s.auth_sessions[k].login_url_nonce == nonce
            && s.auth_sessions[k].expires_at > now && (forall|j: Seq<char>| #[trigger]
            s.auth_sessions.contains_key(j) && j != k ==> s.auth_sessions[j].login_url_nonce
                != nonce) ==> r == Ok::<_, CoreErrorView>(s.auth_sessions[k]),
{
    if s.auth_sessions.contains_key(k) && s.auth_sessions[k].login_url_nonce == nonce {
        assert(s.has_nonce(k, nonce));
    }
}

/// What was kept of a login comes back with its secret, all of it, until its time is
/// over; once taken out it is gone, and other logins stay as they are.
pub proof fn law_login_state_is_kept(
    s: StoreView,
    secret: Seq<char>,
    input: LoginStateInputView,
    ttl: Span,
    now: i64,
    id: Seq<char>,
    any: i64,
    other: Seq<char>,
)
    requires
        0 <= now,
        encoding::secret_hash(other) != encoding::secret_hash(secret),
    ensures
        ({
            let made = s.with_login_state(secret, state::new_login_state(input, ttl, now, id));
            let gone = made.without_login_state(secret);
            let end = if now + ttl.secs <= i64::MAX {
                now + ttl.secs
            } else {
                i64::MAX as int
            };
            &&& any < end ==> (made.login_state(secret, any) matches Ok(kept) && {
                &&& kept.id == id
                &&& kept.provider_id == input.provider_id
                &&& kept.nonce == input.nonce
                &&& kept.login_url_nonce == input.login_url_nonce
                &&& kept.return_path == input.return_path
                &&& kept.private_state == input.private_state
                &&& kept.expires_at == end
            })
            &&& any >= end ==> made.login_state(secret, any) == Err::<LoginStateView, _>(
                CoreErrorView::NotFound,
            )
            &&& gone.login_state(secret, any) == Err::<LoginStateView, _>(CoreErrorView::NotFound)
            &&& made.login_state(other, any) == s.login_state(other, any)
            &&& gone.login_state(other, any) == s.login_state(other, any)
        }),
{
}

/// A browser session stands for its user exactly as long as the user is active.
pub proof fn law_browser_session_stands_for_its_user(s: StoreView, session_id: Seq<char>)
    ensures
        s.browser_user(session_id) is Ok <==> {
            &&& s.browser_sessions.contains_key(session_id)
            &&& s.users.contains_key(s.browser_sessions[session_id])
            &&& s.users[s.browser_sessions[session_id]].status == "active"@
        },
        s.browser_user(session_id) matches Ok(user) ==> user
            == s.users[s.browser_sessions[session_id]],
        s.browser_user(session_id) is Err ==> s.browser_user(session_id) == Err::<UserView, _>(
            CoreErrorView::NotFound,
        ),
{
}

/// A token against forged requests is good for its own session, once, until its time
/// is over.
pub proof fn law_csrf_token_belongs_to_its_session(
    s: StoreView,
    token: Seq<char>,
    session_id: Seq<char>,
    end: i64,
    asked: Seq<char>,
    now: i64,
)
    ensures
        ({
            let made = s.with_csrf(
                token,
                CsrfTokenView { session_id, expires_at: end, consumed: false },
            );
            &&& made.csrf_good(asked, token, now) <==> asked == session_id && now < end
            &&& !made.after_csrf(token).csrf_good(asked, token, now)
            &&& made.after_csrf(token).csrf_tokens[encoding::secret_hash(token)].session_id
                == session_id
        }),
{
}

// ---------------------------------------------------------------------------
// Tokens
// ---------------------------------------------------------------------------

/// A login token names what it was asked for and lasts as long as it was asked to: an
/// hour where nothing was said. It is known again by its text, with or without
/// `Bearer ` in front, as the token of its subject.
pub proof fn law_login_token_is_what_was_asked(
    s: StoreView,
    input: AuthnTokenInputView,
    jti: Seq<char>,
    now: i64,
    unique: Seq<char>,
)
    requires
        0 <= now,
    ensures
        ({
            let token = tokens::authn_token(input, jti, now, unique);
            let after = s.with_token(token.token, tokens::known_token(input, jti, now));
            let lasts = if input.ttl.secs == 0 && input.ttl.nanos == 0 {
                3600
            } else {
                input.ttl.secs as int
            };
            let end = if now + lasts <= i64::MAX {
                now + lasts
            } else {
                i64::MAX as int
            };
            &&& token.jti == jti
            &&& token.token == "authn:"@ + input.subject + ":"@ + unique
            &&& token.kid == "memory"@
            &&& token.issued_at == now
            &&& token.expires_at == end
            &&& token.audience == input.audience
            &&& token.permissions.len() == 0
            &&& token.lore_resource_id.len() == 0
            &&& after.verified("Bearer "@ + token.token) matches Ok(v) && {
                &&& v.subject == input.subject
                &&& v.jti == jti
                &&& v.idp == input.idp
                &&& v.expires_at == end
                &&& v.audience == input.audience
            }
            &&& after.verified(token.token) == after.verified("Bearer "@ + token.token)
        }),
{
    let token = tokens::authn_token(input, jti, now, unique);
    text::law_prefix_and_rest(token.token, "Bearer "@, token.token);
    reveal_strlit("Bearer ");
    reveal_strlit("authn:");
    assert(token.token[0] == 'a');
    assert(!text::has_prefix(token.token, "Bearer "@)) by {
        if text::has_prefix(token.token, "Bearer "@) {
            assert(token.token.subrange(0, 7)[0] == "Bearer "@[0]);
        }
    }
}

/// A token for a repository names the first resource that it was asked for, with the
/// permissions that were asked for there, and lasts as long as it was asked to: a
/// quarter of an hour where nothing was said.
pub proof fn law_repository_token_is_what_was_asked(
    input: AuthzTokenInputView,
    jti: Seq<char>,
    now: i64,
    unique: Seq<char>,
)
    requires
        0 <= now,
    ensures
        ({
            let token = tokens::authz_token(input, jti, now, unique);
            let lasts = if input.ttl.secs == 0 && input.ttl.nanos == 0 {
                900
            } else {
                input.ttl.secs as int
            };
            let end = if now + lasts <= i64::MAX {
                now + lasts
            } else {
                i64::MAX as int
            };
            &&& token.jti == jti
            &&& token.token == "authz:"@ + input.subject + ":"@ + unique
            &&& token.kid == "memory"@
            &&& token.issued_at == now
            &&& token.expires_at == end
            &&& token.audience == input.audience
            &&& input.resources.len() > 0 ==> token.lore_resource_id
                == input.resources[0].resource_id && token.permissions
                == input.resources[0].permission
            &&& input.resources.len() == 0 ==> token.lore_resource_id.len() == 0
                && token.permissions.len() == 0
        }),
{
}

/// A token that was never issued is refused.
pub proof fn law_unknown_token_is_refused(s: StoreView, compact: Seq<char>)
    requires
        !text::has_prefix(compact, "Bearer "@),
        !s.tokens.contains_key(compact),
    ensures
        s.verified(compact) == Err::<VerifiedTokenView, _>(CoreErrorView::Unauthenticated),
        s.verified("Bearer "@ + compact) == Err::<VerifiedTokenView, _>(
            CoreErrorView::Unauthenticated,
        ),
{
    text::law_prefix_and_rest(compact, "Bearer "@, compact);
}

// ---------------------------------------------------------------------------
// Repositories
// ---------------------------------------------------------------------------

/// A repository that is put in by its identifier stands under the resource with `urc-`
/// in front of it, with everything else as it was given.
pub proof fn law_repository_is_kept_as_given(resource: ResourceView, id: Seq<char>)
    requires
        resource_id::is_repository_id(id),
        !text::has_prefix(id, "urc-"@),
        text::trimmed(resource.resource_id) == "urc-"@ + id || text::trimmed(
            resource.resource_id,
        ).len() == 0 && text::trimmed(resource.lore_repository_id) == id,
    ensures
        resources::normalized(resource) matches Ok(r) && {
            &&& r.resource_id == "urc-"@ + id
            &&& r.lore_repository_id == id
            &&& r.id == resource.id
            &&& r.name == resource.name
            &&& r.remote_url == resource.remote_url
            &&& r.status == resource.status
        },
{
    resource_id::law_resource_stands_for_its_repository(id);
    resource_id::lemma_repository_id_is_trimmed(id);
}

/// What a repository lacks is filled in, and what it has is kept: an identifier of its
/// own, the resource that stands for it, the repository that the resource stands for,
/// and that it is active.
pub proof fn law_repository_is_filled_in(resource: ResourceView, id: Seq<char>)
    ensures
        ({
            let f = resources::filled(resource, id);
            &&& f.name == resource.name
            &&& f.remote_url == resource.remote_url
            &&& resource.id.len() > 0 ==> f.id == resource.id
            &&& resource.id.len() == 0 ==> f.id == id
            &&& resource.status.len() > 0 ==> f.status == resource.status
            &&& resource.status.len() == 0 ==> f.status == "active"@
            &&& resource.resource_id.len() > 0 ==> f.resource_id == resource.resource_id
            &&& resource.lore_repository_id.len() > 0 ==> f.lore_repository_id
                == resource.lore_repository_id
            &&& resource.resource_id.len() == 0 && resource_id::is_repository_id(
                resource.lore_repository_id,
            ) && !text::has_prefix(resource.lore_repository_id, "urc-"@) ==> f.resource_id
                == "urc-"@ + resource.lore_repository_id
            &&& resource.lore_repository_id.len() == 0 ==> forall|r: Seq<char>|
                resource.resource_id == #[trigger] ("urc-"@ + r) ==> f.lore_repository_id == r
        }),
{
    reveal_strlit("urc-");
    if resource.resource_id.len() == 0 && resource_id::is_repository_id(resource.lore_repository_id)
        && !text::has_prefix(resource.lore_repository_id, "urc-"@) {
        resource_id::law_resource_stands_for_its_repository(resource.lore_repository_id);
    }
    assert forall|r: Seq<char>|
        resource.lore_repository_id.len() == 0 && resource.resource_id == #[trigger] ("urc-"@
            + r) implies resources::filled(resource, id).lore_repository_id == r by {
        text::law_prefix_and_rest(r, "urc-"@, r);
    }
}

/// The repositories that are listed are those that are there and not deleted; one that
/// was taken out is not among them.
pub proof fn law_listed_repositories_are_live(s: StoreView, r: ResourceView, k: Seq<char>)
    ensures
        s.live_resources().contains(r) <==> s.resources.contains_key(r.resource_id)
            && s.resources[r.resource_id] == r && r.status != "deleted"@,
        r.status != "deleted"@ ==> s.with_resource(r).live_resources().contains(r),
        !s.without_resource(r.resource_id).live_resources().contains(r),
        r.resource_id != k ==> (s.without_resource(k).live_resources().contains(r)
            <==> s.live_resources().contains(r)),
{
}

// ---------------------------------------------------------------------------
// What is not there
// ---------------------------------------------------------------------------

/// A code, a secret or a token that nothing is kept under finds nothing.
pub proof fn law_unknown_codes_find_nothing(
    s: StoreView,
    index: Map<Seq<char>, Seq<char>>,
    code: Seq<char>,
    session: Seq<char>,
    nonce: Seq<char>,
    now: i64,
    r: Result<AuthSessionView, CoreErrorView>,
)
    requires
        !index.contains_key(encoding::code_hash(code)),
        !s.auth_session_codes.contains_key(encoding::secret_hash(code)),
        !s.login_states.contains_key(encoding::secret_hash(code)),
        !s.csrf_tokens.contains_key(encoding::secret_hash(code)),
        !s.browser_sessions.contains_key(session),
        s.is_by_nonce(nonce, now, r),
    ensures
        s.device_by(index, code) == Err::<DeviceAuthorizationView, _>(CoreErrorView::NotFound),
        s.auth_session_by_code(code, now) == Err::<AuthSessionView, _>(
            CoreErrorView::AuthSessionNotFound,
        ),
        s.login_state(code, now) == Err::<LoginStateView, _>(CoreErrorView::NotFound),
        !s.csrf_good(session, code, now),
        s.browser_user(session) == Err::<UserView, _>(CoreErrorView::NotFound),
        (forall|k: Seq<char>| #[trigger]
            s.auth_sessions.contains_key(k) ==> s.auth_sessions[k].login_url_nonce != nonce)
            ==> r is Err,
{
}

/// Nothing is in a store to begin with.
pub proof fn law_nothing_is_in_a_new_store(k: Seq<char>, g: (Seq<char>, Seq<char>, Seq<char>))
    ensures
        ({
            let s = StoreView::empty();
            &&& s.wf()
            &&& !s.users.contains_key(k)
            &&& !s.identities.contains_key(k)
            &&& !s.invitations.contains_key(k)
            &&& !s.resources.contains_key(k)
            &&& !s.grants.contains_key(g)
            &&& !s.groups.contains_key(k)
            &&& !s.group_members.contains_key(k)
            &&& s.group_groups.len() == 0
            &&& !s.auth_sessions.contains_key(k)
            &&& !s.auth_session_codes.contains_key(k)
            &&& !s.login_states.contains_key(k)
            &&& !s.browser_sessions.contains_key(k)
            &&& !s.csrf_tokens.contains_key(k)
            &&& !s.tokens.contains_key(k)
            &&& !s.issued_tokens.contains_key(k)
            &&& s.admin_audit.len() == 0
            &&& !s.device_authorizations.contains_key(k)
            &&& !s.device_code_index.contains_key(k)
            &&& !s.user_code_index.contains_key(k)
        }),
{
}

/// A step of one device, session or token leaves everything else in the store alone.
pub proof fn law_steps_leave_the_rest_alone(
    s: StoreView,
    id: Seq<char>,
    user: Seq<char>,
    now: i64,
    token: Seq<char>,
    known: VerifiedTokenView,
    other: Seq<char>,
)
    requires
        other != id,
        other != token,
    ensures
        s.after_approval(id, user, now).device_code_index == s.device_code_index,
        s.after_approval(id, user, now).user_code_index == s.user_code_index,
        s.after_approval(id, user, now).users == s.users,
        s.after_approval(id, user, now).grants == s.grants,
        s.after_consumption(id, now).device_code_index == s.device_code_index,
        s.after_consumption(id, now).user_code_index == s.user_code_index,
        s.after_consumption(id, now).users == s.users,
        s.after_completion(id, user).auth_sessions[other] == s.auth_sessions[other],
        s.after_completion(id, user).auth_session_codes == s.auth_session_codes,
        s.after_completion(id, user).users == s.users,
        s.after_use(id).auth_sessions[other] == s.auth_sessions[other],
        s.after_use(id).auth_session_codes == s.auth_session_codes,
        s.with_token(token, known).tokens[other] == s.tokens[other],
        s.with_token(token, known).tokens.contains_key(other) <==> s.tokens.contains_key(other),
        s.with_token(token, known).users == s.users,
        s.with_token(token, known).issued_tokens == s.issued_tokens,
{
}

} // verus!
