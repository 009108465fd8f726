//! An identity provider that knows one user and lets that user in.

use vstd::prelude::*;

use crate::error;
use crate::error::{invalid, CoreError, CoreErrorView};
use crate::model::{
    BeginAuthRequest, BeginAuthResult, BeginAuthResultView, CompleteAuthRequest, ExternalIdentity,
    ExternalIdentityView, IdentityProviderDescriptor, IdentityProviderDescriptorView,
    LoginTrustPolicy,
};
use crate::text;
use crate::text::{cat2, is_blank, same};
use crate::urls;
use crate::urls::{add_params, QueryPair};

verus! {

/// The one user of a static identity provider.
#[derive(Debug, PartialEq, Eq)]
pub struct Config {
    pub provider_id: String,
    pub display_name: String,
    pub issuer: String,
    pub subject: String,
    pub email: String,
    pub email_verified: bool,
    pub name: String,
    pub picture_url: String,
    pub hosted_domain: String,
}

/// The view of [`Config`].
#[verifier::ext_equal]
pub struct ConfigView {
    pub provider_id: Seq<char>,
    pub display_name: Seq<char>,
    pub issuer: Seq<char>,
    pub subject: Seq<char>,
    pub email: Seq<char>,
    pub email_verified: bool,
    pub name: Seq<char>,
    pub picture_url: Seq<char>,
    pub hosted_domain: Seq<char>,
}

impl View for Config {
    type V = ConfigView;

    open spec fn view(&self) -> ConfigView {
        ConfigView {
            provider_id: self.provider_id@,
            display_name: self.display_name@,
            issuer: self.issuer@,
            subject: self.subject@,
            email: self.email@,
            email_verified: self.email_verified,
            name: self.name@,
            picture_url: self.picture_url@,
            hosted_domain: self.hosted_domain@,
        }
    }
}

impl Clone for Config {
    fn clone(&self) -> (r: Self)
        ensures
            r@ == self@,
    {
        Config {
            provider_id: self.provider_id.clone(),
            display_name: self.display_name.clone(),
            issuer: self.issuer.clone(),
            subject: self.subject.clone(),
            email: self.email.clone(),
            email_verified: self.email_verified,
            name: self.name.clone(),
            picture_url: self.picture_url.clone(),
            hosted_domain: self.hosted_domain.clone(),
        }
    }
}

impl Config {
    /// The view of the default value: every field empty.
    pub open spec fn blank() -> ConfigView {
        ConfigView {
            provider_id: Seq::empty(),
            display_name: Seq::empty(),
            issuer: Seq::empty(),
            subject: Seq::empty(),
            email: Seq::empty(),
            email_verified: false,
            name: Seq::empty(),
            picture_url: Seq::empty(),
            hosted_domain: Seq::empty(),
        }
    }
}

impl Default for Config {
    fn default() -> (r: Self)
        ensures
            r@ == Self::blank(),
    {
        Config {
            provider_id: String::new(),
            display_name: String::new(),
            issuer: String::new(),
            subject: String::new(),
            email: String::new(),
            email_verified: false,
            name: String::new(),
            picture_url: String::new(),
            hosted_domain: String::new(),
        }
    }
}


/// The provider.
pub struct Provider {
    pub id: String,
    pub display_name: String,
    pub identity: ExternalIdentity,
}

/// The view of [`Provider`].
#[verifier::ext_equal]
pub struct ProviderView {
    pub id: Seq<char>,
    pub display_name: Seq<char>,
    pub identity: ExternalIdentityView,
}

impl View for Provider {
    type V = ProviderView;

    open spec fn view(&self) -> ProviderView {
        ProviderView {
            id: self.id@,
            display_name: self.display_name@,
            identity: self.identity@,
        }
    }
}

/// Why there can be no such provider; none where there can.
pub open spec fn refusal(c: ConfigView) -> Option<CoreErrorView> {
    if text::trimmed(c.provider_id).len() == 0 {
        Some(CoreErrorView::InvalidArgument("staticidp: provider id is required"@))
    } else if text::trimmed(c.issuer).len() == 0 {
        Some(CoreErrorView::InvalidArgument("staticidp: issuer is required"@))
    } else if text::trimmed(c.subject).len() == 0 {
        Some(CoreErrorView::InvalidArgument("staticidp: subject is required"@))
    } else {
        None
    }
}

/// The provider that a configuration makes.
pub open spec fn provider_of(c: ConfigView) -> ProviderView {
    let id = text::trimmed(c.provider_id);
    ProviderView {
        id,
        display_name: if text::trimmed(c.display_name).len() == 0 {
            id
        } else {
            text::trimmed(c.display_name)
        },
        identity: ExternalIdentityView {
            provider_id: id,
            issuer: c.issuer,
            subject: c.subject,
            subject_strategy: "oidc_sub"@,
            email: c.email,
            email_verified: c.email_verified,
            display_name: c.name,
            picture_url: c.picture_url,
            hosted_domain: c.hosted_domain,
            ..ExternalIdentity::blank()
        },
    }
}

/// What is added to the URL that the user is sent back to.
pub open spec fn callback_pairs(state: Seq<char>) -> Seq<(Seq<char>, Seq<char>)> {
    seq![("state"@, state), ("code"@, "static"@)]
}

impl Provider {
    /// The provider that a configuration makes.
    pub fn new(config: Config) -> (r: Result<Self, CoreError>)
        ensures
            match r {
                Ok(p) => refusal(config@) is None && p@ == provider_of(config@),
                Err(e) => refusal(config@) == Some(e@),
            },
    {
        let ghost given = config@;
        let id = config.provider_id.as_str().trim().to_owned();
        if id.is_empty() {
            return Err(invalid("staticidp: provider id is required"));
        }
        if is_blank(config.issuer.as_str()) {
            return Err(invalid("staticidp: issuer is required"));
        }
        if is_blank(config.subject.as_str()) {
            return Err(invalid("staticidp: subject is required"));
        }
        let display_name = if is_blank(config.display_name.as_str()) {
            id.clone()
        } else {
            config.display_name.as_str().trim().to_owned()
        };
        let mut identity = ExternalIdentity::default();
        identity.provider_id = id.clone();
        identity.issuer = config.issuer;
        identity.subject = config.subject;
        identity.subject_strategy = "oidc_sub".to_owned();
        identity.email = config.email;
        identity.email_verified = config.email_verified;
        identity.display_name = config.name;
        identity.picture_url = config.picture_url;
        identity.hosted_domain = config.hosted_domain;
        let p = Provider { id, display_name, identity };
        assert(p@ =~= provider_of(given));
        Ok(p)
    }

    /// What the provider says of itself.
    pub fn descriptor(&self) -> (r: IdentityProviderDescriptor)
        ensures
            r@ == (IdentityProviderDescriptorView {
                id: self@.id,
                provider_type: "static"@,
                display_name: self@.display_name,
                issuer: self@.identity.issuer,
                trust_policy: LoginTrustPolicy::blank(),
            }),
    {
        IdentityProviderDescriptor {
            id: self.id.clone(),
            provider_type: "static".to_owned(),
            display_name: self.display_name.clone(),
            issuer: self.identity.issuer.clone(),
            trust_policy: LoginTrustPolicy::default(),
        }
    }

    /// Sends the user straight back.
    pub fn begin_auth(&self, req: BeginAuthRequest) -> (r: Result<BeginAuthResult, CoreError>)
        requires
            urls::fits(req@.redirect_url, callback_pairs(req@.state)),
        ensures
            error::outcome(r) == begun(
                urls::with_params(req@.redirect_url, callback_pairs(req@.state)),
            ),
    {
        let mut pairs: Vec<QueryPair> = Vec::new();
        pairs.push(QueryPair { name: "state".to_owned(), value: req.state });
        pairs.push(QueryPair { name: "code".to_owned(), value: "static".to_owned() });
        assert(urls::pairs_of(pairs@) =~= callback_pairs(req@.state));
        begin_result(add_params(req.redirect_url.as_str(), &pairs))
    }

    /// Lets the user in who comes back with the code.
    pub fn complete_auth(&self, req: CompleteAuthRequest) -> (r: Result<
        ExternalIdentity,
        CoreError,
    >)
        ensures
            error::outcome(r) == if req@.code == "static"@ {
                Ok::<ExternalIdentityView, CoreErrorView>(self@.identity)
            } else {
                Err(CoreErrorView::InvalidArgument("staticidp: invalid callback code"@))
            },
    {
        if !same(req.code.as_str(), "static") {
            return Err(invalid("staticidp: invalid callback code"));
        }
        Ok(self.identity.clone())
    }
}

/// What the beginning of a login is answered, by what became of the URL.
pub open spec fn begun(url: Result<Seq<char>, Seq<char>>) -> Result<
    BeginAuthResultView,
    CoreErrorView,
> {
    match url {
        Ok(redirect_url) => Ok(BeginAuthResultView { redirect_url, private_state: Seq::empty() }),
        Err(e) => Err(CoreErrorView::InvalidArgument("staticidp: parse callback url: "@ + e)),
    }
}

/// What the beginning of a login is answered, by what became of the URL.
pub fn begin_result(url: Result<String, String>) -> (r: Result<BeginAuthResult, CoreError>)
    ensures
        match url {
            Ok(u) => error::outcome(r) == begun(Ok(u@)),
            Err(e) => error::outcome(r) == begun(Err(e@)),
        },
{
    match url {
        Ok(redirect_url) => {
            let result = BeginAuthResult { redirect_url, private_state: Vec::new() };
            assert(result@.private_state =~= Seq::<u8>::empty());
            Ok(result)
        },
        Err(e) => Err(invalid(cat2("staticidp: parse callback url: ", e.as_str()).as_str())),
    }
}

/// The provider lets in the one user that it was set up with: the identity is what the
/// configuration says, from this provider, and belongs to no account yet. The provider
/// is called by its name, or else by its identifier.
pub proof fn law_identity_is_what_was_set_up(c: ConfigView)
    ensures
        refusal(c) is None <==> text::trimmed(c.provider_id).len() > 0 && text::trimmed(
            c.issuer,
        ).len() > 0 && text::trimmed(c.subject).len() > 0,
        ({
            let p = provider_of(c);
            &&& p.id == text::trimmed(c.provider_id)
            &&& text::trimmed(c.display_name).len() > 0 ==> p.display_name == text::trimmed(
                c.display_name,
            )
            &&& text::trimmed(c.display_name).len() == 0 ==> p.display_name == p.id
            &&& p.identity.provider_id == p.id
            &&& p.identity.issuer == c.issuer
            &&& p.identity.subject == c.subject
            &&& p.identity.subject_strategy == "oidc_sub"@
            &&& p.identity.email == c.email
            &&& p.identity.email_verified == c.email_verified
            &&& p.identity.display_name == c.name
            &&& p.identity.picture_url == c.picture_url
            &&& p.identity.hosted_domain == c.hosted_domain
            &&& p.identity.id.len() == 0
            &&& p.identity.user_id.len() == 0
            &&& p.identity.status.len() == 0
        }),
{
}

/// The user is sent back with the state that came in and the code that the provider
/// knows.
pub proof fn law_callback_carries_state_and_code(state: Seq<char>, url: Seq<char>, why: Seq<char>)
    ensures
        callback_pairs(state).len() == 2,
        callback_pairs(state)[0] == ("state"@, state),
        callback_pairs(state)[1] == ("code"@, "static"@),
        begun(Ok(url)) matches Ok(r) && r.redirect_url == url && r.private_state.len() == 0,
        begun(Err(why)) is Err,
{
}

/// What is said where there can be no such provider: the first thing that is missing.
pub proof fn law_what_is_missing_is_said(c: ConfigView)
    ensures
        text::trimmed(c.provider_id).len() == 0 ==> refusal(c) == Some(
            CoreErrorView::InvalidArgument("staticidp: provider id is required"@),
        ),
        text::trimmed(c.provider_id).len() > 0 && text::trimmed(c.issuer).len() == 0 ==> refusal(c)
            == Some(CoreErrorView::InvalidArgument("staticidp: issuer is required"@)),
        text::trimmed(c.provider_id).len() > 0 && text::trimmed(c.issuer).len() > 0
            && text::trimmed(c.subject).len() == 0 ==> refusal(c) == Some(
            CoreErrorView::InvalidArgument("staticidp: subject is required"@),
        ),
{
}

} // verus!
