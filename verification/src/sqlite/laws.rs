//! What is stored and what is answered, from what was put in.

use vstd::prelude::*;

use crate::authz::query::SubjectKind;
use crate::email;
use crate::encoding;
use crate::error::CoreErrorView;
use crate::model::{
    AddInvitationInputView, AddUserInputView, AuthSessionView, CreateDeviceAuthorizationInputView,
    ExternalIdentityView, IdentityInvitationView, IssuedTokenView, LoginResolutionRequestView,
    LoginStateInputView, LoginStateView, LoginTrustPolicyView, ResourceView, UserView,
};
use crate::resource_id;
use crate::sqlite::accounts as rows;
use crate::sqlite::accounts_table;
use crate::sqlite::accounts_table::AccountsView;
use crate::sqlite::grants::EvidenceRowView;
use crate::sqlite::granting::{GrantEventView, GrantRequestView, GrantTurnView};
use crate::sqlite::groups::NestStep;
use crate::sqlite::login::LoginTurnView;
use crate::sqlite::{devices, granting, grants, groups, resources, state, tokens, upsert};
use crate::sqlite::upsert::{UpsertActionView, UpsertEventView, UpsertStateView, UpsertTurnView};
use crate::text;
use crate::time::Span;

verus! {

// ---------------------------------------------------------------------------
// Accounts
// ---------------------------------------------------------------------------

/// The row of an account holds its address as it was typed and in lower case, its name
/// and how it stands, without whitespace around them; what is blank is not stored. The
/// account is new at the time that is given.
pub proof fn law_user_row_holds_the_user(user: UserView, now: i64)
    ensures
        ({
            let row = rows::row_of_user(user, now);
            let address = text::trimmed(user.email);
            &&& row.id == user.id
            &&& row.status == user.status
            &&& row.created_at == now
            &&& row.updated_at == now
            &&& address.len() > 0 ==> row.primary_email == Some(address)
                && row.primary_email_normalized == Some(text::lower(address))
            &&& address.len() == 0 ==> row.primary_email is None && row.primary_email_normalized is None
            &&& text::trimmed(user.display_name).len() > 0 ==> row.display_name == Some(
                text::trimmed(user.display_name),
            )
            &&& text::trimmed(user.display_name).len() == 0 ==> row.display_name is None
        }),
{
    lemma_lower_is_trimmed(user.email);
}

proof fn lemma_lower_is_trimmed(s: Seq<char>)
    ensures
        text::trimmed(text::lower(text::trimmed(s))) == text::lower(text::trimmed(s)),
        text::lower(text::trimmed(s)).len() == text::trimmed(s).len(),
{
    let t = text::trimmed(s);
    let l = text::lower(t);
    text::lemma_trimmed_ends(s);
    if t.len() > 0 {
        assert forall|i: int| 0 <= i < t.len() implies text::is_space(#[trigger] l[i])
            == text::is_space(t[i]) by {
            let c = t[i];
            if 'A' <= c <= 'Z' {
                let u = c as u32;
                assert(65 <= u <= 90);
                assert(l[i] as u32 == u + 32);
            }
        }
        assert(!text::is_space(l[0]));
        assert(!text::is_space(l[l.len() - 1]));
        assert(l.last() == l[l.len() - 1]);
    }
}

/// An account that is added is active, with the address and the name that were given.
pub proof fn law_new_user_is_as_given(input: AddUserInputView, address: Seq<char>, id: Seq<char>)
    ensures
        ({
            let user = rows::new_user_of(input, address, id);
            &&& user.id == id
            &&& user.email == address
            &&& user.display_name == input.display_name
            &&& user.status == "active"@
            &&& user.last_login_at == 0
        }),
{
}

/// An invitation is taken exactly if it has a provider, an issuer and an address with an
/// `@` and without whitespace. It then keeps them, with the policy that was given or
/// that of verified addresses, waits until the time that was given, and is for a user
/// who waits as well. What is stored of it says the same; no end is stored where there
/// is none.
pub proof fn law_invitation_is_stored_as_given(
    input: AddInvitationInputView,
    user_id: Seq<char>,
    id: Seq<char>,
    now: i64,
)
    ensures
        rows::invitation_refusal(input) is None <==> {
            &&& text::trimmed(input.provider_id).len() > 0
            &&& text::trimmed(input.issuer).len() > 0
            &&& text::trimmed(input.email).contains('@')
            &&& forall|i: int|
                0 <= i < text::trimmed(input.email).len() ==> !text::is_space(
                    #[trigger] text::trimmed(input.email)[i],
                )
        },
        rows::invitation_refusal(input) is None ==> {
            let user = rows::invited_user(input, user_id);
            let i = rows::invitation_of(input, user_id, id);
            let row = rows::row_of_invitation(i, now);
            &&& user.id == user_id
            &&& user.email == text::trimmed(input.email)
            &&& user.display_name == input.display_name
            &&& user.status == "pending"@
            &&& user.last_login_at == 0
            &&& i.id == id
            &&& i.user_id == user_id
            &&& i.provider_id == text::trimmed(input.provider_id)
            &&& i.issuer == text::trimmed(input.issuer)
            &&& i.email == text::trimmed(input.email)
            &&& i.status == "pending"@
            &&& i.expires_at == input.expires_at
            &&& i.accepted_at == 0
            &&& i.accepted_identity_id.len() == 0
            &&& text::trimmed(input.binding_policy).len() == 0 ==> i.binding_policy
                == "verified_email_invitation"@
            &&& text::trimmed(input.binding_policy).len() > 0 ==> i.binding_policy == text::trimmed(
                input.binding_policy,
            )
            &&& row.id == id
            &&& row.user_id == user_id
            &&& row.provider_id == i.provider_id
            &&& row.issuer == i.issuer
            &&& row.binding_policy == i.binding_policy
            &&& row.status == "pending"@
            &&& row.created_at == now
            &&& row.email == Some(text::trimmed(input.email))
            &&& row.email_normalized == Some(text::lower(text::trimmed(input.email)))
            &&& input.expires_at == 0 ==> row.expires_at is None
            &&& input.expires_at != 0 ==> row.expires_at == Some(input.expires_at)
        },
{
    email::law_address_has_an_at_sign(input.email);
    text::lemma_trimmed_twice(input.email);
    lemma_lower_is_trimmed(input.email);
    let t = text::trimmed(input.email);
    if t.contains('@') {
        assert(t.len() > 0);
    }
}

/// An identity is stored and read back as it is, but for whitespace around its texts.
pub proof fn law_identity_is_read_back(e: ExternalIdentityView, now: i64)
    ensures
        ({
            let row = rows::row_of_identity(e, now);
            let back = rows::identity_in(row);
            &&& back.id == e.id
            &&& back.user_id == e.user_id
            &&& back.provider_id == e.provider_id
            &&& back.issuer == e.issuer
            &&& back.subject == e.subject
            &&& back.subject_strategy == e.subject_strategy
            &&& back.email == text::trimmed(e.email)
            &&& back.email_verified == e.email_verified
            &&& back.display_name == text::trimmed(e.display_name)
            &&& back.picture_url == text::trimmed(e.picture_url)
            &&& back.hosted_domain == text::trimmed(e.hosted_domain)
            &&& back.status == e.status
            &&& row.id == e.id
            &&& row.user_id == e.user_id
            &&& row.provider_id == e.provider_id
            &&& row.issuer == e.issuer
            &&& row.subject == e.subject
            &&& row.subject_strategy == e.subject_strategy
            &&& row.email_verified == 0 || row.email_verified == 1
            &&& row.email_verified == 1 <==> e.email_verified
            &&& text::trimmed(e.email).len() > 0 ==> row.email == Some(text::trimmed(e.email))
            &&& text::trimmed(e.display_name).len() > 0 ==> row.display_name == Some(
                text::trimmed(e.display_name),
            )
            &&& text::trimmed(e.picture_url).len() > 0 ==> row.picture_url == Some(
                text::trimmed(e.picture_url),
            )
            &&& text::trimmed(e.hosted_domain).len() > 0 ==> row.hosted_domain == Some(
                text::trimmed(e.hosted_domain),
            )
            &&& row.status == e.status
            &&& row.first_seen_at == now
            &&& row.last_seen_at == now
        }),
{
    assert(text::trimmed(e.email).len() == 0 ==> text::trimmed(e.email) =~= Seq::empty());
    assert(text::trimmed(e.display_name).len() == 0 ==> text::trimmed(e.display_name)
        =~= Seq::empty());
    assert(text::trimmed(e.picture_url).len() == 0 ==> text::trimmed(e.picture_url)
        =~= Seq::empty());
    assert(text::trimmed(e.hosted_domain).len() == 0 ==> text::trimmed(e.hosted_domain)
        =~= Seq::empty());
}

/// A login is known by its provider, its issuer and its subject, without whitespace
/// around them; a login that lacks one of them is refused.
pub proof fn law_login_has_a_key(identity: ExternalIdentityView)
    ensures
        rows::key_of(identity) is Ok <==> text::trimmed(identity.provider_id).len() > 0
            && text::trimmed(identity.issuer).len() > 0 && text::trimmed(identity.subject).len()
            > 0,
        rows::key_of(identity) matches Ok(key) ==> {
            &&& key.provider_id == text::trimmed(identity.provider_id)
            &&& key.issuer == text::trimmed(identity.issuer)
            &&& key.subject == text::trimmed(identity.subject)
        },
{
}

/// An invitation is looked for exactly if the address of the login is verified and not
/// blank, the policy binds by verified address, and the domain is let through. It is
/// looked for by provider, issuer and address in lower case.
pub proof fn law_what_is_searched_for(
    identity: ExternalIdentityView,
    policy: LoginTrustPolicyView,
    key: rows::LoginKeyView,
)
    ensures
        rows::search_for(identity, policy, key) is Ok <==> {
            &&& identity.email_verified
            &&& text::trimmed(identity.email).len() > 0
            &&& text::trimmed(policy.email_binding) == "verified_email_invitation"@
            &&& email::domain_allowed(
                text::lower(text::trimmed(identity.email)),
                policy.allowed_email_domains,
            )
        },
        rows::search_for(identity, policy, key) is Err ==> rows::search_for(identity, policy, key)
            == Err::<rows::InvitationSearchView, _>(CoreErrorView::NotFound),
        rows::search_for(identity, policy, key) matches Ok(search) ==> {
            &&& search.provider_id == key.provider_id
            &&& search.issuer == key.issuer
            &&& search.email_normalized == text::lower(text::trimmed(identity.email))
            &&& search.binding_policy == "verified_email_invitation"@
        },
{
}

/// The identity that is bound to an invited user is the one that logged in, and the user
/// takes its address and its name, or the address of the invitation where it has none.
pub proof fn law_bound_identity_is_the_login(
    identity: ExternalIdentityView,
    key: rows::LoginKeyView,
    invitation: IdentityInvitationView,
    id: Seq<char>,
)
    ensures
        ({
            let e = rows::bound(identity, key, invitation.user_id, id);
            let user = rows::bound_user_of(e, invitation);
            &&& e.id == id
            &&& e.user_id == invitation.user_id
            &&& e.provider_id == key.provider_id
            &&& e.issuer == key.issuer
            &&& e.subject == key.subject
            &&& e.email == text::trimmed(identity.email)
            &&& e.email_verified == identity.email_verified
            &&& e.display_name == identity.display_name
            &&& e.picture_url == identity.picture_url
            &&& e.hosted_domain == identity.hosted_domain
            &&& e.status == "active"@
            &&& text::trimmed(identity.subject_strategy).len() > 0 ==> e.subject_strategy
                == identity.subject_strategy
            &&& text::trimmed(identity.subject_strategy).len() == 0 ==> e.subject_strategy
                == "oidc_sub"@
            &&& user.primary_email == text::trimmed(identity.email)
            &&& user.primary_email_normalized == text::lower(text::trimmed(identity.email))
            &&& text::trimmed(identity.display_name).len() > 0 ==> user.display_name == Some(
                text::trimmed(identity.display_name),
            )
            &&& identity.display_name.len() == 0 && text::trimmed(invitation.email).len() > 0
                ==> user.display_name == Some(text::trimmed(invitation.email))
        }),
{
    text::lemma_trimmed_twice(identity.email);
    text::law_trimming_takes_whitespace(identity.display_name);
    if identity.display_name.len() == 0 {
        assert(text::trimmed(identity.display_name).len() == 0);
    }
}

/// An account that is known by a login is let in while it is active and refused while it
/// is not.
pub proof fn law_known_account_must_be_active(
    user: UserView,
    existing: ExternalIdentityView,
    names: Seq<Seq<char>>,
)
    ensures
        user.status != "active"@ ==> rows::known_login(user, existing, names) is Err
            && rows::known_login(user, existing, names)->Err_0 == CoreErrorView::PermissionDenied,
        user.status == "active"@ ==> (rows::known_login(user, existing, names) matches Ok(
            (principal, binding),
        ) && {
            &&& principal.user_id == user.id
            &&& principal.token_subject == user.id
            &&& principal.token_idp == existing.provider_id
            &&& principal.groups == names
            &&& binding.status == "existing"@
            &&& binding.external_identity_id == existing.id
            &&& binding.invitation_id.len() == 0
        }),
{
}

/// An invitation lets in whom it invites until it expires. Say an invitation that was
/// put in is in the tables, and no other is pending from its provider and issuer to its
/// address. A login that no identity is known for comes from the same provider and
/// issuer with the same verified address, in whatever case, under a policy that binds by
/// verified address and lets the domain through. As long as the invitation has not
/// expired, the login is let in as the invited user. Once it has, the login is refused
/// and nothing changes.
pub proof fn law_stored_invitation_admits_until_it_expires(
    t: AccountsView,
    input: AddInvitationInputView,
    user_id: Seq<char>,
    invitation_id: Seq<char>,
    at: int,
    req: LoginResolutionRequestView,
    now: i64,
    id: Seq<char>,
)
    requires
        t.wf(),
        rows::invitation_refusal(input) is None,
        0 <= at < t.invitations.len(),
        t.invitations[at] == rows::invitation_of(input, user_id, invitation_id),
        t.users.contains_key(user_id),
        text::trimmed(input.binding_policy).len() == 0 || text::trimmed(input.binding_policy)
            == "verified_email_invitation"@,
        text::trimmed(req.identity.provider_id) == text::trimmed(input.provider_id),
        text::trimmed(req.identity.issuer) == text::trimmed(input.issuer),
        text::trimmed(req.identity.subject).len() > 0,
        req.identity.email_verified,
        text::lower(text::trimmed(req.identity.email)) == text::lower(text::trimmed(input.email)),
        text::trimmed(req.policy.email_binding) == "verified_email_invitation"@,
        email::domain_allowed(
            text::lower(text::trimmed(req.identity.email)),
            req.policy.allowed_email_domains,
        ),
        forall|k: int|
            0 <= k < t.identities.len() ==> (#[trigger] t.identities[k]).id != id && !(
            t.identities[k].provider_id == text::trimmed(input.provider_id)
                && t.identities[k].issuer == text::trimmed(input.issuer) && t.identities[k].subject
                == text::trimmed(req.identity.subject)),
        forall|k: Seq<char>| #[trigger]
            t.users.contains_key(k) && k != user_id && t.users[k].status != "deleted"@
                ==> text::lower(text::trimmed(t.users[k].email)) != text::lower(
                text::trimmed(input.email),
            ),
    ensures
        input.expires_at == 0 || input.expires_at > now ==> (t.login(req, now, id) matches Some(
            (after, LoginTurnView::Accept(principal, binding)),
        ) && {
            &&& principal.user_id == user_id
            &&& binding.status == "bound_invitation"@
            &&& binding.external_identity_id == id
            &&& binding.invitation_id == invitation_id
            &&& after.users[user_id].status == "active"@
            &&& after.users[user_id].email == text::trimmed(req.identity.email)
            &&& after.users[user_id].last_login_at == now
            &&& after.invitations[at].status == "accepted"@
            &&& after.invitations[at].accepted_identity_id == id
            &&& after.invitations[at].accepted_at == now
            &&& after.identities.len() == t.identities.len() + 1
            &&& after.identities.last().user_id == user_id
            &&& after.identities.last().subject == text::trimmed(req.identity.subject)
        }),
        input.expires_at != 0 && input.expires_at <= now ==> t.login(req, now, id) == Some(
            (t, LoginTurnView::Refuse(CoreErrorView::NotFound)),
        ),
{
    law_invitation_is_stored_as_given(input, user_id, invitation_id, now);
    lemma_lower_is_trimmed(req.identity.email);
    lemma_lower_is_trimmed(input.email);
    text::lemma_trimmed_twice(input.email);
    let key = rows::key_of(req.identity)->Ok_0;
    let invitation = t.invitations[at];
    assert(rows::key_of(req.identity) is Ok);
    assert(text::trimmed(input.email).len() > 0);
    assert(rows::search_for(req.identity, req.policy, key) is Ok);
    let search = accounts_table::search_of(req);
    assert(!t.knows(key)) by {
        assert forall|k: int| 0 <= k < t.identities.len() implies !accounts_table::is_under(
            #[trigger] t.identities[k],
            key,
        ) by {}
    }
    assert(t.identity(key) is None) by {
        assert forall|k: int| !t.is_identity(k, key) by {}
    }
    assert forall|k: int|
        0 <= k < t.invitations.len() && k != at implies !accounts_table::is_wanted(
        #[trigger] t.invitations[k],
        search,
        now,
    ) by {
        assert(!accounts_table::are_rivals(t.invitations[k], t.invitations[at]));
    }
    if input.expires_at == 0 || input.expires_at > now {
        assert(accounts_table::is_wanted(invitation, search, now));
        assert(t.is_first(at, search, now));
        let found = t.invitation(search, now)->0;
        assert(t.is_first(found, search, now));
        assert(found == at);
        assert(!t.has_identity(id)) by {
            assert forall|k: int| 0 <= k < t.identities.len() implies (#[trigger] t.identities[k]).id
                != id by {}
        }
        assert(!t.is_taken(email::normalized(req.identity.email), user_id)) by {
            assert forall|k: Seq<char>| #[trigger]
                t.users.contains_key(k) && k != user_id && t.users[k].status
                    != "deleted"@ implies crate::sqlite::stored(
                email::normalized(t.users[k].email),
            ) != Some(email::normalized(req.identity.email)) by {
                lemma_lower_is_trimmed(t.users[k].email);
            }
        }
        accounts_table::law_first_login_accepts_its_invitation(t, req, at, now, id);
        text::lemma_trimmed_twice(req.identity.email);
    } else {
        assert(!accounts_table::is_wanted(invitation, search, now));
        assert(t.invitation(search, now) is None) by {
            assert forall|k: int| !t.is_first(k, search, now) by {}
        }
        reveal_with_fuel(AccountsView::run, 8);
    }
}

// ---------------------------------------------------------------------------
// Devices, sessions and tokens
// ---------------------------------------------------------------------------

/// A device that is stored names the repository and the remote URL that were asked for,
/// waits for nobody until its time is over, and is kept under the digests of its codes.
/// What is answered of it names the same.
pub proof fn law_stored_device_names_what_was_asked_for(
    input: CreateDeviceAuthorizationInputView,
    id: Seq<char>,
    now: i64,
)
    requires
        0 <= now,
        now + input.ttl.secs <= i64::MAX,
    ensures
        ({
            let stored = devices::device_of(devices::params_of(input), id, now);
            let answered = devices::core_of(stored);
            &&& stored.id == id
            &&& stored.device_code_hash == encoding::code_hash(input.device_code)
            &&& stored.user_code_hash == encoding::code_hash(input.user_code)
            &&& stored.requested_repository_id == input.requested_repository_id
            &&& stored.requested_remote_url == input.requested_remote_url
            &&& stored.approved_user_id.len() == 0
            &&& stored.status == "pending"@
            &&& stored.created_at == now
            &&& stored.expires_at == now + input.ttl.secs
            &&& stored.approved_at == 0
            &&& stored.consumed_at == 0
            &&& answered.id == id
            &&& answered.requested_repository_id == input.requested_repository_id
            &&& answered.requested_remote_url == input.requested_remote_url
            &&& answered.approved_user_id.len() == 0
            &&& answered.status == "pending"@
            &&& answered.created_at == now
            &&& answered.expires_at == now + input.ttl.secs
        }),
{
}

/// What is answered of a stored device is what is stored, but for the digests of its
/// codes.
pub proof fn law_device_is_answered_as_stored(device: devices::DeviceAuthorizationView)
    ensures
        ({
            let d = devices::core_of(device);
            &&& d.id == device.id
            &&& d.requested_remote_url == device.requested_remote_url
            &&& d.requested_repository_id == device.requested_repository_id
            &&& d.approved_user_id == device.approved_user_id
            &&& d.status == device.status
            &&& d.created_at == device.created_at
            &&& d.expires_at == device.expires_at
            &&& d.approved_at == device.approved_at
            &&& d.consumed_at == device.consumed_at
        }),
{
}

/// A session that is stored waits for a user under its nonce until its time is over, and
/// is answered until then.
pub proof fn law_stored_session_lasts(
    client_state: Seq<char>,
    ttl: Span,
    id: Seq<char>,
    nonce: Seq<char>,
    now: i64,
    any: i64,
)
    requires
        0 <= now,
        now + ttl.secs <= i64::MAX,
    ensures
        ({
            let s = state::auth_session_of(client_state, ttl, id, nonce, now);
            &&& state::ends(now, ttl)
            &&& s.id == id
            &&& s.client_state_hash == encoding::secret_hash(client_state)
            &&& s.status == "pending"@
            &&& s.user_id.len() == 0
            &&& s.login_url_nonce == nonce
            &&& s.expires_at == now + ttl.secs
            &&& any < now + ttl.secs ==> state::live(Some(s), any) == Ok::<_, CoreErrorView>(s)
            &&& any >= now + ttl.secs ==> state::live(Some(s), any) == Err::<AuthSessionView, _>(
                CoreErrorView::AuthSessionNotFound,
            )
            &&& state::live(None, any) == Err::<AuthSessionView, _>(
                CoreErrorView::AuthSessionNotFound,
            )
        }),
{
}

/// What is stored of a login is all that was given, and comes back once, until its time
/// is over.
pub proof fn law_stored_login_comes_back(
    input: LoginStateInputView,
    ttl: Span,
    id: Seq<char>,
    now: i64,
    consumed_at: i64,
    any: i64,
)
    requires
        0 <= now,
        now + ttl.secs <= i64::MAX,
    ensures
        ({
            let s = state::login_state_of(input, ttl, id, now);
            &&& s.id == id
            &&& s.provider_id == input.provider_id
            &&& s.nonce == input.nonce
            &&& s.login_url_nonce == input.login_url_nonce
            &&& s.return_path == input.return_path
            &&& s.private_state == input.private_state
            &&& s.expires_at == now + ttl.secs
            &&& consumed_at == 0 && any < now + ttl.secs ==> state::usable(
                Some((s, consumed_at)),
                any,
            ) == Ok::<_, CoreErrorView>(s)
            &&& consumed_at != 0 || any >= now + ttl.secs ==> state::usable(
                Some((s, consumed_at)),
                any,
            ) == Err::<LoginStateView, _>(CoreErrorView::NotFound)
            &&& state::usable(None, any) == Err::<LoginStateView, _>(CoreErrorView::NotFound)
        }),
{
}

/// The row of an issued token says what the token says. What a token is not for, it
/// leaves out.
pub proof fn law_token_row_holds_the_token(t: IssuedTokenView)
    ensures
        ({
            let row = tokens::row_of_token(t);
            &&& row.jti == t.jti
            &&& row.token_kind == t.kind
            &&& row.role == t.role
            &&& row.kid == t.kid
            &&& row.issued_at == t.issued_at
            &&& row.expires_at == t.expires_at
            &&& text::trimmed(t.user_id).len() > 0 ==> row.user_id == Some(text::trimmed(t.user_id))
            &&& text::trimmed(t.user_id).len() == 0 ==> row.user_id is None
            &&& text::trimmed(t.repository_id).len() > 0 ==> row.repository_id == Some(
                text::trimmed(t.repository_id),
            )
            &&& text::trimmed(t.repository_id).len() == 0 ==> row.repository_id is None
            &&& text::trimmed(t.lore_resource_id).len() > 0 ==> row.lore_resource_id == Some(
                text::trimmed(t.lore_resource_id),
            )
            &&& text::trimmed(t.lore_resource_id).len() == 0 ==> row.lore_resource_id is None
            &&& forall|i: int|
                #![trigger t.audience[i]]
                0 <= i < t.audience.len() ==> text::has_text(
                    row.audience_json,
                    crate::json::quoted(t.audience[i]),
                )
        }),
{
    let row = tokens::row_of_token(t);
    let all = crate::json::all_quoted(t.audience);
    assert forall|i: int|
        #![trigger t.audience[i]]
        0 <= i < t.audience.len() implies text::has_text(
        row.audience_json,
        crate::json::quoted(t.audience[i]),
    ) by {
        assert(all[i] == crate::json::quoted(t.audience[i]));
        crate::json::law_array_holds_its_values(all, all[i]);
    }
}

// ---------------------------------------------------------------------------
// Repositories, groups and grants
// ---------------------------------------------------------------------------

/// A repository is kept under its identifier, with its name, or the identifier where it
/// has none. Where it has a remote URL it was put in by hand and the URL is kept;
/// otherwise it was made on demand and has none.
pub proof fn law_repository_is_planned_as_given(resource: ResourceView, id: Seq<char>)
    requires
        resource_id::is_repository_id(id),
        !text::has_prefix(id, "urc-"@),
        text::trimmed(resource.resource_id) == "urc-"@ + id || text::trimmed(
            resource.resource_id,
        ).len() == 0 && text::trimmed(resource.lore_repository_id) == id,
    ensures
        resources::plan_of(resource) matches Ok(plan) && {
            &&& plan.lore_repository_id == id
            &&& text::trimmed(resource.name).len() > 0 ==> plan.name == resource.name
            &&& text::trimmed(resource.name).len() == 0 ==> plan.name == id
            &&& text::trimmed(resource.remote_url).len() > 0 ==> plan.manual && plan.remote_url
                == resource.remote_url
            &&& text::trimmed(resource.remote_url).len() == 0 ==> !plan.manual
                && plan.remote_url.len() == 0
        },
{
    resource_id::law_resource_stands_for_its_repository(id);
    resource_id::lemma_repository_id_is_trimmed(id);
}

/// How a planned repository is stored. One by hand is looked for first: where there is
/// none it is added as `manual`, where there is one by hand it gets the new name and
/// URL, and one that something else manages is left alone. One on demand is made active
/// again where it is there, and added as `rebac_create_resource` where it is not.
pub proof fn law_repository_is_stored_by_its_source(
    plan: resources::ResourcePlanView,
    existing: ResourceView,
    source: Seq<char>,
)
    ensures
        upsert::turn(UpsertStateView::Finding(plan), UpsertEventView::Found(None))
            == UpsertTurnView::Ask(
            UpsertStateView::Inserting,
            UpsertActionView::Insert {
                lore_repository_id: plan.lore_repository_id,
                name: plan.name,
                remote_url: plan.remote_url,
                source: if plan.manual {
                    "manual"@
                } else {
                    "rebac_create_resource"@
                },
            },
        ),
        source == "manual"@ ==> upsert::turn(
            UpsertStateView::Finding(plan),
            UpsertEventView::Found(Some((existing, source))),
        ) == UpsertTurnView::Ask(
            UpsertStateView::Updating,
            UpsertActionView::Update {
                id: existing.id,
                name: plan.name,
                remote_url: plan.remote_url,
            },
        ),
        source != "manual"@ ==> upsert::turn(
            UpsertStateView::Finding(plan),
            UpsertEventView::Found(Some((existing, source))),
        ) == UpsertTurnView::Refuse(
            CoreErrorView::InvalidArgument(
                "repository "@ + existing.lore_repository_id + " is managed by "@ + source,
            ),
        ),
        upsert::turn(UpsertStateView::Reactivating(plan), UpsertEventView::Changed(0))
            == upsert::turn(UpsertStateView::Finding(plan), UpsertEventView::Found(None)),
        upsert::turn(UpsertStateView::Reactivating(plan), UpsertEventView::Changed(1))
            == UpsertTurnView::Finish,
        upsert::turn(UpsertStateView::Updating, UpsertEventView::Changed(1))
            == UpsertTurnView::Finish,
        upsert::turn(UpsertStateView::Updating, UpsertEventView::Changed(0))
            == UpsertTurnView::Refuse(CoreErrorView::NotFound),
{
}

/// A stored repository is read back with the resource that stands for it: `urc-` before
/// its identifier.
pub proof fn law_repository_row_is_read_back(
    id: Seq<char>,
    name: Seq<char>,
    remote_url: Seq<char>,
    repository: Seq<char>,
    status: Seq<char>,
)
    requires
        resource_id::is_repository_id(repository),
        !text::has_prefix(repository, "urc-"@),
    ensures
        ({
            let r = resources::resource_in(id, name, remote_url, repository, status);
            &&& r.id == id
            &&& r.name == name
            &&& r.remote_url == remote_url
            &&& r.lore_repository_id == repository
            &&& r.resource_id == "urc-"@ + repository
            &&& r.status == status
        }),
{
    resource_id::law_resource_stands_for_its_repository(repository);
}

/// A group has the name that was given, without whitespace around it, and the
/// description.
pub proof fn law_group_is_as_given(name: Seq<char>, description: Seq<char>, id: Seq<char>)
    ensures
        groups::group_of(name, description, id).id == id,
        groups::group_of(name, description, id).name == text::trimmed(name),
        groups::group_of(name, description, id).description == description,
{
}

/// A group is put into another unless it is the same, is there already, or the other is
/// inside it.
pub proof fn law_group_is_nested_where_it_can_be(
    parent: Seq<char>,
    member: Seq<char>,
    there: bool,
    cycle: bool,
)
    ensures
        parent == member ==> groups::nest_step(parent, member, there, cycle) == Err::<NestStep, _>(
            CoreErrorView::InvalidArgument("group cannot contain itself"@),
        ),
        parent != member && there ==> groups::nest_step(parent, member, there, cycle) == Ok::<
            _,
            CoreErrorView,
        >(NestStep::Keep),
        parent != member && !there && cycle ==> groups::nest_step(parent, member, there, cycle)
            == Err::<NestStep, _>(
            CoreErrorView::InvalidArgument("group nesting would create a cycle"@),
        ),
        parent != member && !there && !cycle ==> groups::nest_step(parent, member, there, cycle)
            == Ok::<_, CoreErrorView>(NestStep::Insert),
{
}

/// A grant is to a user or to a group, and to nothing else.
pub proof fn law_grants_are_to_users_and_groups(name: Seq<char>)
    ensures
        name == "user"@ ==> grants::kind_named(name) == Ok::<_, CoreErrorView>(SubjectKind::User),
        name == "group"@ ==> grants::kind_named(name) == Ok::<_, CoreErrorView>(SubjectKind::Group),
        name != "user"@ && name != "group"@ ==> grants::kind_named(name) == Err::<SubjectKind, _>(
            CoreErrorView::InvalidArgument(
                "unknown grant subject_type "@ + text::debug_quoted(name),
            ),
        ),
{
    reveal_strlit("user");
    reveal_strlit("group");
    assert("user"@.len() == 4);
    assert("group"@.len() == 5);
}

/// A grant that is made says what was asked for: to whom it is, on which repository and
/// with which role, by the identifiers that were found.
pub proof fn law_grant_says_what_was_asked(
    req: GrantRequestView,
    subject: Seq<char>,
    repository: Seq<char>,
    id: Seq<char>,
)
    requires
        req.role == "reader"@ || req.role == "writer"@ || req.role == "admin"@,
        req.subject_type == "user"@ || req.subject_type == "group"@,
    ensures
        granting::first_turn(req) matches GrantTurnView::Ask(naming, _) && granting::turn(
            naming,
            GrantEventView::Subject(Ok(subject)),
            id,
        ) matches GrantTurnView::Ask(placing, _) && granting::turn(
            placing,
            GrantEventView::Repository(Some(repository)),
            id,
        ) matches GrantTurnView::Ask(adding, _) && granting::turn(
            adding,
            GrantEventView::Added,
            id,
        ) matches GrantTurnView::Finish(grant) && {
            &&& grant.id == id
            &&& grant.subject_type == req.subject_type
            &&& grant.subject_id == subject
            &&& grant.repository_id == repository
            &&& grant.role == req.role
        },
{
    crate::roles::law_what_each_role_permits(req.role, Seq::empty());
    law_grants_are_to_users_and_groups(req.subject_type);
}

/// Evidence says of a row what the row says, and by which way the grant reaches the
/// user: directly, or through the groups on the way.
pub proof fn law_evidence_says_what_the_row_says(
    user: Seq<char>,
    row: EvidenceRowView,
    paths: Seq<(Seq<char>, Seq<char>)>,
    way: Seq<char>,
)
    requires
        grants::label_of(paths, row.subject_id) == Some(way),
    ensures
        ({
            let own = grants::own_evidence(user, row);
            let by_group = grants::group_evidence(user, row, paths);
            &&& own.subject_type == row.subject_type
            &&& own.subject_id == row.subject_id
            &&& own.subject_name == row.subject_name
            &&& own.role == row.role
            &&& own.path == "user:"@ + user + " -> grant"@
            &&& by_group.subject_type == row.subject_type
            &&& by_group.subject_id == row.subject_id
            &&& by_group.subject_name == row.subject_name
            &&& by_group.role == row.role
            &&& by_group.path == "user:"@ + user + " -> "@ + way + " -> grant"@
        }),
{
}

/// The evidence is one piece for each row, those to the user before those to groups.
pub proof fn law_evidence_is_one_for_each_row(
    user: Seq<char>,
    own: Seq<EvidenceRowView>,
    by_group: Seq<EvidenceRowView>,
    paths: Seq<(Seq<char>, Seq<char>)>,
    i: int,
)
    requires
        0 <= i < own.len() + by_group.len(),
    ensures
        ({
            let all = grants::evidence_of(user, own, by_group, paths);
            let row = if i < own.len() {
                own[i]
            } else {
                by_group[i - own.len()]
            };
            &&& all.len() == own.len() + by_group.len()
            &&& all[i].subject_type == row.subject_type
            &&& all[i].subject_id == row.subject_id
            &&& all[i].subject_name == row.subject_name
            &&& all[i].role == row.role
        }),
{
}

/// The name of a group is that of the last row with its identifier, and there is none
/// where no row has it.
pub proof fn law_label_is_the_last(rows: Seq<(Seq<char>, Seq<char>)>, id: Seq<char>, i: int)
    requires
        0 <= i < rows.len(),
        rows[i].0 == id,
        forall|j: int| i < j < rows.len() ==> (#[trigger] rows[j]).0 != id,
    ensures
        grants::label_of(rows, id) == Some(rows[i].1),
    decreases rows.len(),
{
    if i < rows.len() - 1 {
        assert(rows.last() == rows[rows.len() - 1]);
        let front = rows.drop_last();
        assert forall|j: int| i < j < front.len() implies (#[trigger] front[j]).0 != id by {
            assert(front[j] == rows[j]);
        }
        law_label_is_the_last(front, id, i);
    }
}

/// A repository is looked up by its identifier, with or without `urc-` before it.
pub proof fn law_repository_is_looked_up_by_its_identifier(resource: Seq<char>, id: Seq<char>)
    requires
        id.len() > 0,
        text::trimmed(resource) == "urc-"@ + id || text::trimmed(resource) == id
            && !text::has_prefix(id, "urc-"@),
    ensures
        grants::repository_key(resource) == Ok::<_, CoreErrorView>(id),
{
    text::law_prefix_and_rest(id, "urc-"@, id);
}

/// Whom a grant is to must be found, and where nobody is found the error names the kind
/// and the name that were asked for.
pub proof fn law_subject_must_be_found(
    kind: SubjectKind,
    subject: Seq<char>,
    id: Seq<char>,
    e: CoreErrorView,
)
    ensures
        grants::subject_found(kind, subject, Ok(id)) == Ok::<_, CoreErrorView>(id),
        grants::subject_found(kind, subject, Err(e)) == Err::<Seq<char>, _>(
            CoreErrorView::InvalidArgument(
                "unknown grant "@ + match kind {
                    SubjectKind::User => "user"@,
                    SubjectKind::Group => "group"@,
                } + " "@ + text::debug_quoted(subject),
            ),
        ),
{
}

/// A stored public key is given back as it was read, and one that cannot be read is an
/// error.
pub proof fn law_public_key_is_given_back(s: Seq<char>, why: Seq<char>)
    ensures
        tokens::public_jwk_of(Ok(s)) == Ok::<_, CoreErrorView>(s),
        tokens::public_jwk_of(Err(why)) is Err,
{
}

/// A login that is known is refused while its account is not active, and nothing changes.
pub proof fn law_stored_login_needs_an_active_account(
    t: AccountsView,
    req: LoginResolutionRequestView,
    i: int,
    now: i64,
    id: Seq<char>,
)
    requires
        t.wf(),
        0 <= i < t.identities.len(),
        text::trimmed(req.identity.provider_id).len() > 0,
        text::trimmed(req.identity.issuer).len() > 0,
        text::trimmed(req.identity.subject).len() > 0,
        t.identities[i].provider_id == text::trimmed(req.identity.provider_id),
        t.identities[i].issuer == text::trimmed(req.identity.issuer),
        t.identities[i].subject == text::trimmed(req.identity.subject),
        t.identities[i].status == "active"@,
        t.users.contains_key(t.identities[i].user_id),
        t.users[t.identities[i].user_id].status != "active"@,
    ensures
        t.login(req, now, id) == Some((t, LoginTurnView::Refuse(CoreErrorView::PermissionDenied))),
{
    let key = rows::key_of(req.identity)->Ok_0;
    assert(t.is_identity(i, key));
    let k = t.identity(key)->0;
    assert(t.is_identity(k, key));
    assert(k == i) by {
        if k != i {
            assert(!accounts_table::same_key(t.identities[k], t.identities[i]));
        }
    }
    reveal_with_fuel(AccountsView::run, 8);
}

/// A login that is not known is refused, and changes nothing, where its address is not
/// verified or is blank, and where the policy does not bind by verified address.
pub proof fn law_stored_login_needs_a_verified_address(
    t: AccountsView,
    req: LoginResolutionRequestView,
    now: i64,
    id: Seq<char>,
)
    requires
        text::trimmed(req.identity.provider_id).len() > 0,
        text::trimmed(req.identity.issuer).len() > 0,
        text::trimmed(req.identity.subject).len() > 0,
        forall|k: int|
            0 <= k < t.identities.len() ==> !((#[trigger] t.identities[k]).provider_id
                == text::trimmed(req.identity.provider_id) && t.identities[k].issuer
                == text::trimmed(req.identity.issuer) && t.identities[k].subject == text::trimmed(
                req.identity.subject,
            )),
        !req.identity.email_verified || text::trimmed(req.identity.email).len() == 0
            || text::trimmed(req.policy.email_binding) != "verified_email_invitation"@,
    ensures
        t.login(req, now, id) == Some((t, LoginTurnView::Refuse(CoreErrorView::NotFound))),
{
    let key = rows::key_of(req.identity)->Ok_0;
    assert(t.identity(key) is None) by {
        assert forall|k: int| !t.is_identity(k, key) by {
            if 0 <= k < t.identities.len() {
                assert(!(t.identities[k].provider_id == key.provider_id && t.identities[k].issuer
                    == key.issuer && t.identities[k].subject == key.subject));
            }
        }
    }
    reveal_with_fuel(AccountsView::run, 8);
}

/// What is said where an account, an invitation, a login, a device or a lookup is refused.
pub proof fn law_what_refusals_say(
    input: AddInvitationInputView,
    identity: ExternalIdentityView,
    resource: Seq<char>,
)
    ensures
        rows::invitation_refusal(input) matches Some(e) ==> e == CoreErrorView::InvalidArgument(
            "email must contain '@' and no whitespace"@,
        ) || e == CoreErrorView::InvalidArgument(
            "provider_id, issuer, and email are required"@,
        ),
        email::valid_email(input.email) is Ok ==> (rows::invitation_refusal(input) matches Some(e)
            ==> e == CoreErrorView::InvalidArgument(
            "provider_id, issuer, and email are required"@,
        )),
        rows::key_of(identity) matches Err(e) ==> e == CoreErrorView::InvalidArgument(
            "provider_id, issuer, and subject are required"@,
        ),
        text::trimmed(resource).len() == 0 ==> grants::repository_key(resource) == Err::<
            Seq<char>,
            _,
        >(CoreErrorView::InvalidArgument("resource_id must not be empty"@)),
{
    if text::trimmed(resource).len() == 0 {
        reveal_strlit("urc-");
    }
}

/// A shortest way is a chain of groups, each directly inside the next, from one of those
/// to start from up to the group that is meant, and no chain has fewer.
pub proof fn law_shortest_way_is_a_chain(
    chain: Seq<Seq<char>>,
    ids: Seq<Seq<char>>,
    edges: Seq<(Seq<char>, Seq<char>)>,
    names: Seq<(Seq<char>, Seq<char>)>,
    group: Seq<char>,
    path: Seq<char>,
    i: int,
)
    requires
        grants::explains(chain, ids, edges, names, group, path),
        0 <= i < chain.len() - 1,
    ensures
        edges.contains((chain[i], chain[i + 1])),
        ids.contains(chain[0]),
        chain.last() == group,
{
    assert(crate::nesting::is_step(edges, chain, i));
}

/// A grant that is made is recorded as the addition of a grant by the actor, under the
/// identifier of the grant, with all that was asked for.
pub proof fn law_grant_record_says_what_was_granted(
    table: Seq<crate::model::GrantView>,
    data: Seq<crate::model::GrantView>,
    req: GrantRequestView,
    answers: granting::AnswersView,
    actor: Seq<char>,
    entry: crate::model::AdminAuditEntryView,
)
    requires
        granting::is_granting(Ok((data, Some(entry))), table, req, answers, actor),
    ensures
        entry.actor == actor,
        entry.action == "grant.add"@,
        entry.object_type == "grant"@,
        entry.object_id == answers.id,
        entry.detail == "subject_type="@ + req.subject_type + " subject_id="@ + req.subject
            + " repo="@ + req.repo + " role="@ + req.role,
        data.len() == table.len() + 1,
        data.last().id == answers.id,
        data.last().role == req.role,
        data.last().subject_type == req.subject_type,
        Ok::<_, CoreErrorView>(data.last().subject_id) == answers.subject,
        Some(data.last().repository_id) == answers.repository,
{
    granting::law_grant_is_made_where_it_can_be(table, req, answers);
}

} // verus!
