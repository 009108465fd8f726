//! What an invitation, a login and an account come to, from what was put in to
//! what is answered.

use vstd::prelude::*;

use crate::accounts;
use crate::email;
use crate::error::CoreErrorView;
use crate::memory::{accounts as logins, StoreView};
use crate::model::{
    AddInvitationInputView, AddUserInputView, ExternalIdentityView, LoginBindingResultView,
    LoginResolutionRequestView, TokenPrincipalView, UserView,
};
use crate::text;

verus! {

// ---------------------------------------------------------------------------
// Invitations
// ---------------------------------------------------------------------------

/// An invitation lets in whom it invites until it expires. Say an invitation is
/// added that expires at `input.expires_at`, or never where that is zero, and no
/// other is for the same address. A login that is not known comes from the same
/// provider and issuer with the same verified address, in whatever case, under a
/// policy that binds by verified address and allows the domain. As long as the
/// invitation has not expired, the login is let in as the invited user, whose
/// account becomes active with the address and the name of the login, and the
/// invitation is used up. Once it has expired, the login is refused and nothing
/// changes.
pub proof fn law_invitation_admits_until_it_expires(
    before: StoreView,
    input: AddInvitationInputView,
    user_id: Seq<char>,
    invitation_id: Seq<char>,
    invited: StoreView,
    req: LoginResolutionRequestView,
    now: i64,
    identity_id: Seq<char>,
    after: StoreView,
    r: Result<(TokenPrincipalView, LoginBindingResultView), CoreErrorView>,
)
    requires
        invited == before.with_invitation(
            logins::invited_user(input, user_id),
            logins::new_invitation(input, invitation_id, user_id),
        ),
        text::trimmed(input.binding_policy).len() == 0 || text::trimmed(input.binding_policy)
            == "verified_email_invitation"@,
        forall|k: Seq<char>| #[trigger]
            before.invitations.contains_key(k) && k != invitation_id ==> {
                ||| before.invitations[k].provider_id != input.provider_id
                ||| before.invitations[k].issuer != input.issuer
                ||| text::lower(text::trimmed(before.invitations[k].email)) != text::lower(
                    text::trimmed(input.email),
                )
            },
        before.identities.contains_key(accounts::identity_key(req.identity))
            ==> before.identities[accounts::identity_key(req.identity)].status != "active"@,
        req.identity.provider_id == input.provider_id,
        req.identity.issuer == input.issuer,
        req.identity.email_verified,
        text::trimmed(req.identity.email).len() > 0,
        text::lower(text::trimmed(req.identity.email)) == text::lower(text::trimmed(input.email)),
        text::trimmed(req.policy.email_binding) == "verified_email_invitation"@,
        req.policy.allowed_email_domains.len() == 0 || email::domain_allowed(
            req.identity.email,
            req.policy.allowed_email_domains,
        ),
        invited.login_post(req, now, identity_id, after, r),
    ensures
        input.expires_at == 0 || input.expires_at > now ==> {
            &&& r matches Ok((principal, binding)) && {
                &&& principal.user_id == user_id
                &&& principal.token_subject == user_id
                &&& principal.token_idp == input.provider_id
                &&& principal.groups == invited.member_list(user_id)
                &&& binding.status == "bound_invitation"@
                &&& binding.external_identity_id == identity_id
                &&& binding.invitation_id == invitation_id
            }
            &&& after.users.dom() == invited.users.dom()
            &&& after.users[user_id].id == user_id
            &&& after.users[user_id].email == req.identity.email
            &&& after.users[user_id].display_name == req.identity.display_name
            &&& after.users[user_id].status == "active"@
            &&& after.identities.contains_key(accounts::identity_key(req.identity))
            &&& after.identities[accounts::identity_key(req.identity)].user_id == user_id
            &&& after.identities[accounts::identity_key(req.identity)].id == identity_id
            &&& after.identities[accounts::identity_key(req.identity)].status == "active"@
            &&& after.identities[accounts::identity_key(req.identity)].email == req.identity.email
            &&& after.invitations[invitation_id].status == "accepted"@
            &&& after.invitations[invitation_id].accepted_identity_id == identity_id
        },
        input.expires_at != 0 && input.expires_at <= now ==> {
            &&& r == Err::<(TokenPrincipalView, LoginBindingResultView), CoreErrorView>(
                CoreErrorView::NotFound,
            )
            &&& after == invited
        },
{
    lemma_email_has_same_len(req.identity.email, input.email);
    assert(text::trimmed("verified_email_invitation"@) == "verified_email_invitation"@) by {
        reveal_strlit("verified_email_invitation");
        assert("verified_email_invitation"@[0] == 'v');
        assert("verified_email_invitation"@.last() == 'n');
    }
    text::lemma_trimmed_twice(input.email);
    let i = invitation_id;
    if input.expires_at == 0 || input.expires_at > now {
        assert(invited.is_invitation(i, req.identity, now));
        let chosen = choose|k: Seq<char>|
            {
                &&& #[trigger] invited.is_invitation(k, req.identity, now)
                &&& after == invited.after_binding(k, req.identity, identity_id)
                &&& r == invited.bound_login(k, req.identity, identity_id)
            };
        assert(chosen == i) by {
            if chosen != i {
                assert(before.invitations.contains_key(chosen));
            }
        }
        assert(after.users.dom() =~= invited.users.dom());
    } else {
        assert forall|k: Seq<char>| !invited.is_invitation(k, req.identity, now) by {
            if k != i && invited.invitations.contains_key(k) {
                assert(before.invitations.contains_key(k));
            }
        }
    }
}

proof fn lemma_email_has_same_len(a: Seq<char>, b: Seq<char>)
    requires
        text::lower(text::trimmed(a)) == text::lower(text::trimmed(b)),
    ensures
        text::trimmed(a).len() == text::trimmed(b).len(),
{
    assert(text::lower(text::trimmed(a)).len() == text::trimmed(a).len());
    assert(text::lower(text::trimmed(b)).len() == text::trimmed(b).len());
}

/// A login that is not known is refused, and changes nothing, unless all of this
/// holds: its address is verified and not blank, the policy binds by verified
/// address and allows the domain, and there is a pending invitation from the same
/// provider and issuer to that address, of the same policy, that has not expired. Where such a login is let in, it is by such an
/// invitation.
pub proof fn law_login_needs_an_invitation(
    s: StoreView,
    req: LoginResolutionRequestView,
    now: i64,
    identity_id: Seq<char>,
    after: StoreView,
    r: Result<(TokenPrincipalView, LoginBindingResultView), CoreErrorView>,
)
    requires
        s.login_post(req, now, identity_id, after, r),
        s.identities.contains_key(accounts::identity_key(req.identity))
            ==> s.identities[accounts::identity_key(req.identity)].status != "active"@,
    ensures
        r is Err ==> r == Err::<(TokenPrincipalView, LoginBindingResultView), CoreErrorView>(
            CoreErrorView::NotFound,
        ),
        !req.identity.email_verified || text::trimmed(req.identity.email).len() == 0
            || text::trimmed(req.policy.email_binding) != "verified_email_invitation"@
            || !email::domain_allowed(req.identity.email, req.policy.allowed_email_domains)
            ==> r is Err && after == s,
        (forall|k: Seq<char>| #[trigger]
            s.invitations.contains_key(k) ==> {
                ||| s.invitations[k].provider_id != req.identity.provider_id
                ||| s.invitations[k].issuer != req.identity.issuer
                ||| s.invitations[k].status != "pending"@
                ||| s.invitations[k].expires_at != 0 && s.invitations[k].expires_at <= now
                ||| text::trimmed(s.invitations[k].binding_policy) != "verified_email_invitation"@
                ||| text::lower(text::trimmed(s.invitations[k].email)) != text::lower(
                    text::trimmed(req.identity.email),
                )
            }) ==> r is Err && after == s,
        r matches Ok((principal, binding)) ==> {
            let i = binding.invitation_id;
            &&& s.invitations.contains_key(i)
            &&& s.invitations[i].provider_id == req.identity.provider_id
            &&& s.invitations[i].issuer == req.identity.issuer
            &&& s.invitations[i].status == "pending"@
            &&& s.invitations[i].expires_at == 0 || s.invitations[i].expires_at > now
            &&& text::trimmed(s.invitations[i].binding_policy) == "verified_email_invitation"@
            &&& text::lower(text::trimmed(s.invitations[i].email)) == text::lower(
                text::trimmed(req.identity.email),
            )
            &&& s.users.contains_key(s.invitations[i].user_id)
            &&& principal.user_id == s.users[s.invitations[i].user_id].id
            &&& principal.token_idp == req.identity.provider_id
            &&& binding.status == "bound_invitation"@
            &&& binding.external_identity_id == identity_id
        },
{
}

/// What a bound login leaves alone: every other account, every other identity, every
/// other invitation, and everything else in the store. The identity that is kept is
/// the one that logged in, with whom it belongs to.
pub proof fn law_binding_touches_one_account(
    s: StoreView,
    i: Seq<char>,
    identity: ExternalIdentityView,
    id: Seq<char>,
    other: Seq<char>,
)
    requires
        s.users.contains_key(s.invitations[i].user_id),
    ensures
        ({
            let after = s.after_binding(i, identity, id);
            let kept = after.identities[accounts::identity_key(identity)];
            &&& other != s.invitations[i].user_id ==> (after.users.contains_key(other)
                <==> s.users.contains_key(other)) && after.users[other] == s.users[other]
            &&& other != accounts::identity_key(identity) ==> (after.identities.contains_key(other)
                <==> s.identities.contains_key(other)) && after.identities[other]
                == s.identities[other]
            &&& other != i ==> (after.invitations.contains_key(other)
                <==> s.invitations.contains_key(other)) && after.invitations[other]
                == s.invitations[other]
            &&& after.users[s.invitations[i].user_id].last_login_at
                == s.users[s.invitations[i].user_id].last_login_at
            &&& after.invitations[i].user_id == s.invitations[i].user_id
            &&& after.invitations[i].email == s.invitations[i].email
            &&& after.invitations[i].expires_at == s.invitations[i].expires_at
            &&& kept.provider_id == identity.provider_id
            &&& kept.issuer == identity.issuer
            &&& kept.subject == identity.subject
            &&& kept.email == identity.email
            &&& kept.email_verified == identity.email_verified
            &&& kept.display_name == identity.display_name
            &&& kept.picture_url == identity.picture_url
            &&& kept.hosted_domain == identity.hosted_domain
            &&& identity.subject_strategy.len() > 0 ==> kept.subject_strategy
                == identity.subject_strategy
            &&& identity.subject_strategy.len() == 0 ==> kept.subject_strategy == "oidc_sub"@
            &&& after.resources == s.resources
            &&& after.grants == s.grants
            &&& after.groups == s.groups
            &&& after.group_members == s.group_members
            &&& after.group_groups == s.group_groups
            &&& after.tokens == s.tokens
            &&& after.issued_tokens == s.issued_tokens
        }),
{
}

/// An invitation keeps what was asked for: whom it is to, from where, by which
/// policy and until when. The invited user waits, with the address and the name that
/// were given.
pub proof fn law_invitation_keeps_what_was_asked(
    input: AddInvitationInputView,
    id: Seq<char>,
    user_id: Seq<char>,
)
    ensures
        ({
            let user = logins::invited_user(input, user_id);
            let invitation = logins::new_invitation(input, id, user_id);
            &&& user.id == user_id
            &&& user.email == text::trimmed(input.email)
            &&& user.display_name == input.display_name
            &&& user.status == "pending"@
            &&& user.last_login_at == 0
            &&& invitation.id == id
            &&& invitation.user_id == user_id
            &&& invitation.provider_id == input.provider_id
            &&& invitation.issuer == input.issuer
            &&& invitation.email == text::trimmed(input.email)
            &&& invitation.status == "pending"@
            &&& invitation.expires_at == input.expires_at
            &&& invitation.accepted_at == 0
            &&& invitation.accepted_identity_id.len() == 0
            &&& text::trimmed(input.binding_policy).len() > 0 ==> invitation.binding_policy
                == input.binding_policy
            &&& text::trimmed(input.binding_policy).len() == 0 ==> invitation.binding_policy
                == "verified_email_invitation"@
        }),
{
}

/// An invitation is refused exactly if it has no provider, no issuer, or an address
/// without an `@` or with whitespace in it.
pub proof fn law_invitation_needs_an_address(input: AddInvitationInputView)
    ensures
        logins::invitation_refusal(input) is None <==> {
            &&& text::trimmed(input.provider_id).len() > 0
            &&& text::trimmed(input.issuer).len() > 0
            &&& text::trimmed(input.email).contains('@')
            &&& forall|i: int|
                0 <= i < text::trimmed(input.email).len() ==> !text::is_space(
                    #[trigger] text::trimmed(input.email)[i],
                )
        },
{
    email::law_address_has_an_at_sign(input.email);
}

// ---------------------------------------------------------------------------
// Logins that are known, and accounts
// ---------------------------------------------------------------------------

/// A login that is known changes nothing and is answered by the account that it
/// belongs to: let in while the account is active, refused while it is not, and not
/// found where there is none.
pub proof fn law_known_login_is_its_account(
    s: StoreView,
    req: LoginResolutionRequestView,
    now: i64,
    identity_id: Seq<char>,
    after: StoreView,
    r: Result<(TokenPrincipalView, LoginBindingResultView), CoreErrorView>,
)
    requires
        s.login_post(req, now, identity_id, after, r),
        s.identities.contains_key(accounts::identity_key(req.identity)),
        s.identities[accounts::identity_key(req.identity)].status == "active"@,
    ensures
        ({
            let known = s.identities[accounts::identity_key(req.identity)];
            &&& after == s
            &&& !s.users.contains_key(known.user_id) ==> r == Err::<
                (TokenPrincipalView, LoginBindingResultView),
                CoreErrorView,
            >(CoreErrorView::NotFound)
            &&& s.users.contains_key(known.user_id) && s.users[known.user_id].status != "active"@
                ==> r == Err::<(TokenPrincipalView, LoginBindingResultView), CoreErrorView>(
                CoreErrorView::PermissionDenied,
            )
            &&& s.users.contains_key(known.user_id) && s.users[known.user_id].status == "active"@
                ==> (r matches Ok((principal, binding)) && {
                &&& principal.user_id == s.users[known.user_id].id
                &&& principal.token_subject == s.users[known.user_id].id
                &&& principal.token_idp == req.identity.provider_id
                &&& principal.groups == s.member_list(known.user_id)
                &&& binding.status == "existing"@
                &&& binding.external_identity_id == known.id
                &&& binding.invitation_id.len() == 0
            })
        }),
{
}

/// The principal of an account: the account's own identifier stands for it. It is
/// shown by its name, or else by its address, or else by its identifier, and it is
/// called by its address, or else by its identifier.
pub proof fn law_principal_is_the_account(
    user: UserView,
    token_idp: Seq<char>,
    groups: Seq<Seq<char>>,
)
    ensures
        ({
            let p = accounts::principal_of(user, token_idp, groups);
            &&& p.user_id == user.id
            &&& p.token_subject == user.id
            &&& p.token_idp == token_idp
            &&& p.groups == groups
            &&& user.display_name.len() > 0 ==> p.display_name == user.display_name
            &&& user.display_name.len() == 0 && user.email.len() > 0 ==> p.display_name
                == user.email
            &&& user.display_name.len() == 0 && user.email.len() == 0 ==> p.display_name == user.id
            &&& user.email.len() > 0 ==> p.preferred_username == user.email
            &&& user.email.len() == 0 ==> p.preferred_username == user.id
        }),
{
}

/// Two logins have the same key exactly if they come from the same provider and
/// issuer with the same subject, as long as none of the three has a NUL in it.
pub proof fn law_login_key_tells_logins_apart(a: ExternalIdentityView, b: ExternalIdentityView)
    requires
        !a.provider_id.contains('\0') && !b.provider_id.contains('\0'),
        !a.issuer.contains('\0') && !b.issuer.contains('\0'),
    ensures
        accounts::identity_key(a) == accounts::identity_key(b) <==> {
            &&& a.provider_id == b.provider_id
            &&& a.issuer == b.issuer
            &&& a.subject == b.subject
        },
{
    reveal_strlit("\0");
    if accounts::identity_key(a) == accounts::identity_key(b) {
        let rest_a = a.issuer + "\0"@ + a.subject;
        let rest_b = b.issuer + "\0"@ + b.subject;
        assert(accounts::identity_key(a) =~= a.provider_id + "\0"@ + rest_a);
        assert(accounts::identity_key(b) =~= b.provider_id + "\0"@ + rest_b);
        lemma_parted_by_nul(a.provider_id, b.provider_id, rest_a, rest_b);
        lemma_parted_by_nul(a.issuer, b.issuer, a.subject, b.subject);
    }
}

proof fn lemma_parted_by_nul(a: Seq<char>, b: Seq<char>, x: Seq<char>, y: Seq<char>)
    requires
        !a.contains('\0') && !b.contains('\0'),
        a + "\0"@ + x == b + "\0"@ + y,
    ensures
        a == b,
        x == y,
{
    reveal_strlit("\0");
    let s = a + "\0"@ + x;
    let t = b + "\0"@ + y;
    assert(s[a.len() as int] == '\0');
    assert(t[b.len() as int] == '\0');
    if a.len() < b.len() {
        assert(t[a.len() as int] == b[a.len() as int]);
        assert(b.contains('\0'));
    }
    if b.len() < a.len() {
        assert(s[b.len() as int] == a[b.len() as int]);
        assert(a.contains('\0'));
    }
    assert(a =~= s.take(a.len() as int));
    assert(b =~= t.take(b.len() as int));
    assert(x =~= s.skip(a.len() as int + 1));
    assert(y =~= t.skip(b.len() as int + 1));
}

/// An account that is added is active, with the name that was given, and is found
/// again by its identifier. No other account changes.
pub proof fn law_added_user_is_found(
    s: StoreView,
    input: AddUserInputView,
    address: Seq<char>,
    id: Seq<char>,
    other: Seq<char>,
)
    requires
        other != id,
    ensures
        ({
            let after = s.with_user(logins::new_user(input, address, id));
            &&& after.user(id) matches Ok(u) && {
                &&& u.id == id
                &&& u.email == address
                &&& u.display_name == input.display_name
                &&& u.status == "active"@
                &&& u.last_login_at == 0
            }
            &&& after.user(other) == s.user(other)
            &&& after.principal(id) matches Ok(p) && {
                &&& p.user_id == id
                &&& p.token_idp == "bridge"@
                &&& p.groups == s.member_list(id)
            }
            &&& after.principal(other) == s.principal(other)
        }),
{
    reveal_strlit("active");
    reveal_strlit("deleted");
    assert("active"@.len() == 6);
    assert("deleted"@.len() == 7);
}

/// An account is read by its identifier unless it is deleted, and it stands for
/// itself as a principal only while it is active.
pub proof fn law_account_is_read_unless_deleted(s: StoreView, id: Seq<char>)
    ensures
        s.users.contains_key(id) && s.users[id].status != "deleted"@ ==> s.user(id) == Ok::<
            UserView,
            CoreErrorView,
        >(s.users[id]),
        !s.users.contains_key(id) || s.users[id].status == "deleted"@ ==> s.user(id) == Err::<
            UserView,
            CoreErrorView,
        >(CoreErrorView::NotFound),
        s.principal(id) is Ok <==> s.users.contains_key(id) && s.users[id].status == "active"@,
        !s.users.contains_key(id) ==> s.principal(id) == Err::<TokenPrincipalView, CoreErrorView>(
            CoreErrorView::NotFound,
        ),
        s.users.contains_key(id) && s.users[id].status != "active"@ ==> s.principal(id) == Err::<
            TokenPrincipalView,
            CoreErrorView,
        >(CoreErrorView::PermissionDenied),
        s.principal(id) matches Ok(p) ==> p.user_id == s.users[id].id && p.token_idp == "bridge"@
            && p.groups == s.member_list(id),
{
}

/// A token stands for a login exactly while it is on record as such, has not expired,
/// and names an active account; the principal is that of the account.
pub proof fn law_token_stands_for_its_account(s: StoreView, jti: Seq<char>, now: i64)
    ensures
        s.principal_of_token(jti, now) is Ok <==> {
            &&& s.issued_tokens.contains_key(jti)
            &&& s.issued_tokens[jti].kind == "authn"@
            &&& s.issued_tokens[jti].expires_at > now
            &&& s.issued_tokens[jti].user_id.len() > 0
            &&& s.users.contains_key(s.issued_tokens[jti].user_id)
            &&& s.users[s.issued_tokens[jti].user_id].status == "active"@
        },
        s.principal_of_token(jti, now) is Err ==> s.principal_of_token(jti, now) == Err::<
            TokenPrincipalView,
            CoreErrorView,
        >(CoreErrorView::NotFound),
        s.principal_of_token(jti, now) matches Ok(p) ==> {
            &&& p.user_id == s.users[s.issued_tokens[jti].user_id].id
            &&& p.token_idp == "bridge"@
            &&& p.groups == s.member_list(s.issued_tokens[jti].user_id)
        },
{
}

/// A search for users finds those who are not deleted and whose address or name has
/// the text in it, whatever the case of its letters; a blank search finds them all.
pub proof fn law_search_finds_by_address_or_name(s: StoreView, query: Seq<char>, u: UserView)
    ensures
        s.users_found(query).contains(u) <==> {
            &&& s.users.contains_key(u.id)
            &&& s.users[u.id] == u
            &&& u.status != "deleted"@
            &&& {
                ||| text::trimmed(query).len() == 0
                ||| exists|a: Seq<char>, b: Seq<char>|
                    text::lower(text::trimmed(u.email)) == #[trigger] (a + text::lower(
                        text::trimmed(query),
                    ) + b)
                ||| exists|a: Seq<char>, b: Seq<char>|
                    text::lower(u.display_name) == #[trigger] (a + text::lower(
                        text::trimmed(query),
                    ) + b)
            }
        },
{
    text::law_text_occurs(text::lower(text::trimmed(u.email)), text::lower(text::trimmed(query)));
    text::law_text_occurs(text::lower(u.display_name), text::lower(text::trimmed(query)));
    assert(text::lower(text::trimmed(query)).len() == text::trimmed(query).len());
}

/// What is said where an invitation is refused.
pub proof fn law_what_a_refused_invitation_is_told(input: AddInvitationInputView)
    ensures
        text::trimmed(input.provider_id).len() == 0 || text::trimmed(input.issuer).len() == 0
            ==> logins::invitation_refusal(input) == Some(
            CoreErrorView::InvalidArgument("provider_id, issuer, and email are required"@),
        ),
        text::trimmed(input.provider_id).len() > 0 && text::trimmed(input.issuer).len() > 0
            && logins::invitation_refusal(input) is Some ==> logins::invitation_refusal(input)
            == Some(
            CoreErrorView::InvalidArgument("email must contain '@' and no whitespace"@),
        ),
{
}

} // verus!
