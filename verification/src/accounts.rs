//! Rules on accounts that every store shares.

use vstd::prelude::*;

use crate::model::{
    ExternalIdentity, ExternalIdentityView, LoginTrustPolicy, LoginTrustPolicyView, TokenPrincipal,
    TokenPrincipalView, User, UserView,
};
use crate::text;
use crate::text::{cat5, same};

verus! {

impl User {
    /// The name of the user in tokens.
    pub open spec fn subject_of(user: UserView) -> Seq<char> {
        user.id
    }

    /// How the user is shown: by name, else by address, else by identifier.
    pub open spec fn display_of(user: UserView) -> Seq<char> {
        if user.display_name.len() > 0 {
            user.display_name
        } else {
            Self::preferred_username_of(user)
        }
    }

    /// The name that the user would choose: the address, else the identifier.
    pub open spec fn preferred_username_of(user: UserView) -> Seq<char> {
        if user.email.len() > 0 {
            user.email
        } else {
            user.id
        }
    }

    /// The name of the user in tokens.
    pub fn bridge_subject(&self) -> (r: String)
        ensures
            r@ == Self::subject_of(self@),
    {
        self.id.clone()
    }

    /// How the user is shown.
    pub fn display(&self) -> (r: String)
        ensures
            r@ == Self::display_of(self@),
    {
        if self.display_name.is_empty() {
            self.preferred_username()
        } else {
            self.display_name.clone()
        }
    }

    /// The name that the user would choose.
    pub fn preferred_username(&self) -> (r: String)
        ensures
            r@ == Self::preferred_username_of(self@),
    {
        if self.email.is_empty() {
            self.id.clone()
        } else {
            self.email.clone()
        }
    }
}

/// The user in the terms of tokens.
pub open spec fn principal_of(
    user: UserView,
    token_idp: Seq<char>,
    groups: Seq<Seq<char>>,
) -> TokenPrincipalView {
    TokenPrincipalView {
        user_id: user.id,
        token_subject: User::subject_of(user),
        token_idp,
        display_name: User::display_of(user),
        preferred_username: User::preferred_username_of(user),
        groups,
    }
}

/// The user in the terms of tokens.
pub fn principal_from_user(user: &User, token_idp: &str, groups: Vec<String>) -> (r: TokenPrincipal)
    ensures
        r@ == principal_of(user@, token_idp@, text::texts(groups@)),
{
    TokenPrincipal {
        user_id: user.id.clone(),
        token_subject: user.bridge_subject(),
        token_idp: token_idp.to_owned(),
        display_name: user.display(),
        preferred_username: user.preferred_username(),
        groups,
    }
}

/// What an identity is found by: its provider, issuer and subject.
pub open spec fn identity_key(identity: ExternalIdentityView) -> Seq<char> {
    identity.provider_id + "\0"@ + identity.issuer + "\0"@ + identity.subject
}

/// What an identity is found by.
pub fn external_identity_key(identity: &ExternalIdentity) -> (r: String)
    ensures
        r@ == identity_key(identity@),
{
    cat5(
        identity.provider_id.as_str(),
        "\0",
        identity.issuer.as_str(),
        "\0",
        identity.subject.as_str(),
    )
}

/// Whether a verified address is enough to accept an invitation.
pub open spec fn binds_by_email(policy: LoginTrustPolicyView) -> bool {
    text::trimmed(policy.email_binding) == "verified_email_invitation"@
}

/// Whether a verified address is enough to accept an invitation.
pub fn allows_verified_email_invitation_binding(policy: &LoginTrustPolicy) -> (r: bool)
    ensures
        r == binds_by_email(policy@),
{
    same(policy.email_binding.as_str().trim(), "verified_email_invitation")
}

/// How many rows a listing gives at most: at least one.
pub open spec fn limit_of(limit: usize) -> usize {
    if limit == 0 {
        1
    } else {
        limit
    }
}

/// How many rows a listing gives at most.
pub fn effective_limit(limit: usize) -> (r: usize)
    ensures
        r == limit_of(limit),
{
    if limit == 0 {
        1
    } else {
        limit
    }
}

/// Two identities have the same key only if provider, issuer and subject are
/// the same, as long as no part holds the separator.
pub proof fn law_identity_key_is_injective(a: ExternalIdentityView, b: ExternalIdentityView)
    requires
        identity_key(a) == identity_key(b),
        !a.provider_id.contains('\0') && !a.issuer.contains('\0'),
        !b.provider_id.contains('\0') && !b.issuer.contains('\0'),
    ensures
        a.provider_id == b.provider_id,
        a.issuer == b.issuer,
        a.subject == b.subject,
{
    reveal_strlit("\0");
    let sep = "\0"@;
    let ra = a.issuer + sep + a.subject;
    let rb = b.issuer + sep + b.subject;
    assert(identity_key(a) =~= a.provider_id + sep + ra);
    assert(identity_key(b) =~= b.provider_id + sep + rb);
    lemma_split_at_separator(a.provider_id, ra, b.provider_id, rb);
    lemma_split_at_separator(a.issuer, a.subject, b.issuer, b.subject);
}

proof fn lemma_split_at_separator(a: Seq<char>, x: Seq<char>, b: Seq<char>, y: Seq<char>)
    requires
        a + "\0"@ + x == b + "\0"@ + y,
        !a.contains('\0'),
        !b.contains('\0'),
    ensures
        a == b,
        x == y,
{
    reveal_strlit("\0");
    let s = a + "\0"@ + x;
    let t = b + "\0"@ + y;
    assert(s[a.len() as int] == '\0');
    assert(t[b.len() as int] == '\0');
    if a.len() < b.len() {
        assert(t[a.len() as int] == b[a.len() as int]);
        assert(b.contains('\0'));
    }
    if b.len() < a.len() {
        assert(s[b.len() as int] == a[b.len() as int]);
        assert(a.contains('\0'));
    }
    assert(a =~= s.take(a.len() as int));
    assert(b =~= t.take(b.len() as int));
    assert(x =~= s.skip(a.len() as int + 1));
    assert(y =~= t.skip(b.len() as int + 1));
}

/// At least one is listed, and otherwise as many as are asked for.
pub proof fn law_limit_is_at_least_one(limit: usize)
    ensures
        limit > 0 ==> limit_of(limit) == limit,
        limit == 0 ==> limit_of(limit) == 1,
{
}

/// Only the policy of verified addresses binds by address; whitespace around its name does
/// not matter.
pub proof fn law_which_policy_binds(policy: LoginTrustPolicyView)
    ensures
        binds_by_email(policy) <==> text::trimmed(policy.email_binding)
            == "verified_email_invitation"@,
{
}

} // verus!
