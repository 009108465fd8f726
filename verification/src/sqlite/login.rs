//! A login, turn by turn: what the database is asked next, given its answers so
//! far.

use vstd::prelude::*;

use crate::accounts;
use crate::error::{invalid, CoreError, CoreErrorView};
use crate::model::{
    ExternalIdentity, ExternalIdentityView, IdentityInvitation, IdentityInvitationView,
    LoginBindingResult, LoginBindingResultView, LoginResolutionRequest, LoginResolutionRequestView,
    LoginTrustPolicy, LoginTrustPolicyView, TokenPrincipal, TokenPrincipalView, User, UserView,
};
use crate::sqlite::accounts as rows;
use crate::sqlite::accounts::{
    active_user, bind_identity_with_id, bound_login, bound_user, existing_login, identity_row,
    invitation_search, login_key, BoundUser, BoundUserView, IdentityRow, IdentityRowView,
    InvitationSearch, InvitationSearchView, LoginKey, LoginKeyView,
};
use crate::text;

verus! {

/// What the database is to do next.
#[derive(Debug, PartialEq, Eq)]
pub enum LoginAction {
    /// Find the active identity under this key.
    FindIdentity(LoginKey),
    /// Note that an identity and its user were seen.
    Touch { identity_id: String, user_id: String, now: i64 },
    /// Find the oldest pending invitation that is not over.
    FindInvitation(InvitationSearch),
    /// Store a new identity.
    AddIdentity(IdentityRow),
    /// Mark a pending invitation as accepted.
    AcceptInvitation { invitation_id: String, identity_id: String, now: i64 },
    /// Make a user active, with what the login says of it.
    UpdateUser { user_id: String, user: BoundUser, now: i64 },
    /// Find a user.
    ReadUser(String),
    /// List the names of a user's groups.
    ListGroups(String),
}

/// The view of [`LoginAction`].
pub enum LoginActionView {
    FindIdentity(LoginKeyView),
    Touch { identity_id: Seq<char>, user_id: Seq<char>, now: i64 },
    FindInvitation(InvitationSearchView),
    AddIdentity(IdentityRowView),
    AcceptInvitation { invitation_id: Seq<char>, identity_id: Seq<char>, now: i64 },
    UpdateUser { user_id: Seq<char>, user: BoundUserView, now: i64 },
    ReadUser(Seq<char>),
    ListGroups(Seq<char>),
}

impl View for LoginAction {
    type V = LoginActionView;

    open spec fn view(&self) -> LoginActionView {
        match self {
            LoginAction::FindIdentity(key) => LoginActionView::FindIdentity(key@),
            LoginAction::Touch { identity_id, user_id, now } => LoginActionView::Touch {
                identity_id: identity_id@,
                user_id: user_id@,
                now: *now,
            },
            LoginAction::FindInvitation(search) => LoginActionView::FindInvitation(search@),
            LoginAction::AddIdentity(row) => LoginActionView::AddIdentity(row@),
            LoginAction::AcceptInvitation {
                invitation_id,
                identity_id,
                now,
            } => LoginActionView::AcceptInvitation {
                invitation_id: invitation_id@,
                identity_id: identity_id@,
                now: *now,
            },
            LoginAction::UpdateUser { user_id, user, now } => LoginActionView::UpdateUser {
                user_id: user_id@,
                user: user@,
                now: *now,
            },
            LoginAction::ReadUser(id) => LoginActionView::ReadUser(id@),
            LoginAction::ListGroups(id) => LoginActionView::ListGroups(id@),
        }
    }
}

/// What the database answered.
#[derive(Debug, PartialEq, Eq)]
pub enum LoginEvent {
    /// The identity that was found, and the time.
    Identity { found: Option<ExternalIdentity>, now: i64 },
    /// The invitation that was found, the time, and an identifier for the
    /// identity that may come of it.
    Invitation { found: Option<IdentityInvitation>, now: i64, id: String },
    /// It is done.
    Done,
    /// So many rows were changed.
    Changed(usize),
    /// The user that was found.
    User(Option<User>),
    /// The names of the user's groups.
    Groups(Vec<String>),
}

/// The view of [`LoginEvent`].
pub enum LoginEventView {
    Identity { found: Option<ExternalIdentityView>, now: i64 },
    Invitation { found: Option<IdentityInvitationView>, now: i64, id: Seq<char> },
    Done,
    Changed(nat),
    User(Option<UserView>),
    Groups(Seq<Seq<char>>),
}

impl View for LoginEvent {
    type V = LoginEventView;

    open spec fn view(&self) -> LoginEventView {
        match self {
            LoginEvent::Identity { found, now } => LoginEventView::Identity {
                found: match found {
                    Some(e) => Some(e@),
                    None => None,
                },
                now: *now,
            },
            LoginEvent::Invitation { found, now, id } => LoginEventView::Invitation {
                found: match found {
                    Some(i) => Some(i@),
                    None => None,
                },
                now: *now,
                id: id@,
            },
            LoginEvent::Done => LoginEventView::Done,
            LoginEvent::Changed(n) => LoginEventView::Changed(*n as nat),
            LoginEvent::User(found) => LoginEventView::User(
                match found {
                    Some(u) => Some(u@),
                    None => None,
                },
            ),
            LoginEvent::Groups(names) => LoginEventView::Groups(text::texts(names@)),
        }
    }
}

/// By what right a user logs in.
#[derive(Debug, PartialEq, Eq)]
pub enum Standing {
    /// The identity was known before.
    Known(ExternalIdentity),
    /// The identity is new: it accepted this invitation.
    Bound(ExternalIdentity, IdentityInvitation),
}

/// The view of [`Standing`].
pub enum StandingView {
    Known(ExternalIdentityView),
    Bound(ExternalIdentityView, IdentityInvitationView),
}

impl View for Standing {
    type V = StandingView;

    open spec fn view(&self) -> StandingView {
        match self {
            Standing::Known(e) => StandingView::Known(e@),
            Standing::Bound(e, i) => StandingView::Bound(e@, i@),
        }
    }
}

/// How far a login is.
#[derive(Debug, PartialEq, Eq)]
pub enum LoginState {
    /// The identity is being looked for.
    Searching(ExternalIdentity, LoginTrustPolicy, LoginKey),
    /// The known identity is being touched.
    Touching(ExternalIdentity),
    /// An invitation is being looked for.
    Inviting(ExternalIdentity, LoginKey),
    /// The new identity is being stored.
    Adding(ExternalIdentity, IdentityInvitation, i64),
    /// The invitation is being marked as accepted.
    Accepting(ExternalIdentity, IdentityInvitation, i64),
    /// The user is being made active.
    Updating(ExternalIdentity, IdentityInvitation),
    /// The user is being read.
    Reading(Standing),
    /// The user's groups are being read.
    Grouping(Standing, User),
}

/// The view of [`LoginState`].
pub enum LoginStateView {
    Searching(ExternalIdentityView, LoginTrustPolicyView, LoginKeyView),
    Touching(ExternalIdentityView),
    Inviting(ExternalIdentityView, LoginKeyView),
    Adding(ExternalIdentityView, IdentityInvitationView, i64),
    Accepting(ExternalIdentityView, IdentityInvitationView, i64),
    Updating(ExternalIdentityView, IdentityInvitationView),
    Reading(StandingView),
    Grouping(StandingView, UserView),
}

impl View for LoginState {
    type V = LoginStateView;

    open spec fn view(&self) -> LoginStateView {
        match self {
            LoginState::Searching(e, p, k) => LoginStateView::Searching(e@, p@, k@),
            LoginState::Touching(e) => LoginStateView::Touching(e@),
            LoginState::Inviting(e, k) => LoginStateView::Inviting(e@, k@),
            LoginState::Adding(e, i, now) => LoginStateView::Adding(e@, i@, *now),
            LoginState::Accepting(e, i, now) => LoginStateView::Accepting(e@, i@, *now),
            LoginState::Updating(e, i) => LoginStateView::Updating(e@, i@),
            LoginState::Reading(s) => LoginStateView::Reading(s@),
            LoginState::Grouping(s, u) => LoginStateView::Grouping(s@, u@),
        }
    }
}

/// What follows an answer.
#[derive(Debug, PartialEq, Eq)]
pub enum LoginTurn {
    /// The database is asked for more.
    Ask(LoginState, LoginAction),
    /// The login is accepted: what was done is to be kept.
    Accept(TokenPrincipal, LoginBindingResult),
    /// The login is refused: what was done is to be undone.
    Refuse(CoreError),
}

/// The view of [`LoginTurn`].
pub enum LoginTurnView {
    Ask(LoginStateView, LoginActionView),
    Accept(TokenPrincipalView, LoginBindingResultView),
    Refuse(CoreErrorView),
}

impl View for LoginTurn {
    type V = LoginTurnView;

    open spec fn view(&self) -> LoginTurnView {
        match self {
            LoginTurn::Ask(s, a) => LoginTurnView::Ask(s@, a@),
            LoginTurn::Accept(p, b) => LoginTurnView::Accept(p@, b@),
            LoginTurn::Refuse(e) => LoginTurnView::Refuse(e@),
        }
    }
}

/// The first turn of a login.
pub open spec fn first_turn(req: LoginResolutionRequestView) -> LoginTurnView {
    match rows::key_of(req.identity) {
        Err(e) => LoginTurnView::Refuse(e),
        Ok(key) => LoginTurnView::Ask(
            LoginStateView::Searching(req.identity, req.policy, key),
            LoginActionView::FindIdentity(key),
        ),
    }
}

/// The turn after the search for the identity.
pub open spec fn after_identity(
    identity: ExternalIdentityView,
    policy: LoginTrustPolicyView,
    key: LoginKeyView,
    found: Option<ExternalIdentityView>,
    now: i64,
) -> LoginTurnView {
    match found {
        Some(e) => LoginTurnView::Ask(
            LoginStateView::Touching(e),
            LoginActionView::Touch { identity_id: e.id, user_id: e.user_id, now },
        ),
        None => match rows::search_for(identity, policy, key) {
            Err(e) => LoginTurnView::Refuse(e),
            Ok(search) => LoginTurnView::Ask(
                LoginStateView::Inviting(identity, key),
                LoginActionView::FindInvitation(search),
            ),
        },
    }
}

/// The turn after the search for an invitation.
pub open spec fn after_invitation(
    identity: ExternalIdentityView,
    key: LoginKeyView,
    found: Option<IdentityInvitationView>,
    now: i64,
    id: Seq<char>,
) -> LoginTurnView {
    match found {
        None => LoginTurnView::Refuse(CoreErrorView::NotFound),
        Some(invitation) => {
            let bound = rows::bound(identity, key, invitation.user_id, id);
            LoginTurnView::Ask(
                LoginStateView::Adding(bound, invitation, now),
                LoginActionView::AddIdentity(rows::row_of_identity(bound, now)),
            )
        },
    }
}

/// The turn after a user was looked for.
pub open spec fn after_user(standing: StandingView, found: Option<UserView>) -> LoginTurnView {
    match found {
        None => LoginTurnView::Refuse(CoreErrorView::NotFound),
        Some(user) => if standing is Known && user.status != "active"@ {
            LoginTurnView::Refuse(CoreErrorView::PermissionDenied)
        } else {
            LoginTurnView::Ask(
                LoginStateView::Grouping(standing, user),
                LoginActionView::ListGroups(user.id),
            )
        },
    }
}

/// The turn after the groups were listed.
pub open spec fn after_groups(
    standing: StandingView,
    user: UserView,
    groups: Seq<Seq<char>>,
) -> LoginTurnView {
    match standing {
        StandingView::Known(e) => match rows::known_login(user, e, groups) {
            Ok((principal, binding)) => LoginTurnView::Accept(principal, binding),
            Err(refusal) => LoginTurnView::Refuse(refusal),
        },
        StandingView::Bound(e, invitation) => LoginTurnView::Accept(
            accounts::principal_of(user, e.provider_id, groups),
            LoginBindingResultView {
                status: "bound_invitation"@,
                external_identity_id: e.id,
                invitation_id: invitation.id,
            },
        ),
    }
}

/// The turn after an answer of the database. An answer to another question than
/// the one that was asked ends the login.
pub open spec fn turn(state: LoginStateView, event: LoginEventView) -> LoginTurnView {
    match (state, event) {
        (
            LoginStateView::Searching(identity, policy, key),
            LoginEventView::Identity { found, now },
        ) => after_identity(identity, policy, key, found, now),
        (LoginStateView::Touching(e), LoginEventView::Done) => LoginTurnView::Ask(
            LoginStateView::Reading(StandingView::Known(e)),
            LoginActionView::ReadUser(e.user_id),
        ),
        (
            LoginStateView::Inviting(identity, key),
            LoginEventView::Invitation { found, now, id },
        ) => after_invitation(identity, key, found, now, id),
        (LoginStateView::Adding(e, i, now), LoginEventView::Done) => LoginTurnView::Ask(
            LoginStateView::Accepting(e, i, now),
            LoginActionView::AcceptInvitation { invitation_id: i.id, identity_id: e.id, now },
        ),
        (LoginStateView::Accepting(e, i, now), LoginEventView::Changed(n)) => if n == 0 {
            LoginTurnView::Refuse(CoreErrorView::NotFound)
        } else {
            LoginTurnView::Ask(
                LoginStateView::Updating(e, i),
                LoginActionView::UpdateUser {
                    user_id: i.user_id,
                    user: rows::bound_user_of(e, i),
                    now,
                },
            )
        },
        (LoginStateView::Updating(e, i), LoginEventView::Changed(n)) => if n == 0 {
            LoginTurnView::Refuse(CoreErrorView::NotFound)
        } else {
            LoginTurnView::Ask(
                LoginStateView::Reading(StandingView::Bound(e, i)),
                LoginActionView::ReadUser(i.user_id),
            )
        },
        (LoginStateView::Reading(standing), LoginEventView::User(found)) => after_user(
            standing,
            found,
        ),
        (LoginStateView::Grouping(standing, user), LoginEventView::Groups(groups)) => after_groups(
            standing,
            user,
            groups,
        ),
        _ => LoginTurnView::Refuse(
            CoreErrorView::InvalidArgument("sqlite: unexpected answer to a login"@),
        ),
    }
}

/// Begins a login.
pub fn begin_login(req: LoginResolutionRequest) -> (r: LoginTurn)
    ensures
        r@ == first_turn(req@),
{
    match login_key(&req.identity) {
        Ok(key) => {
            let asked = LoginKey {
                provider_id: key.provider_id.clone(),
                issuer: key.issuer.clone(),
                subject: key.subject.clone(),
            };
            LoginTurn::Ask(
                LoginState::Searching(req.identity, req.policy, key),
                LoginAction::FindIdentity(asked),
            )
        },
        Err(e) => LoginTurn::Refuse(e),
    }
}

fn identity_answered(
    identity: ExternalIdentity,
    policy: LoginTrustPolicy,
    key: LoginKey,
    found: Option<ExternalIdentity>,
    now: i64,
) -> (r: LoginTurn)
    ensures
        r@ == after_identity(
            identity@,
            policy@,
            key@,
            match found {
                Some(e) => Some(e@),
                None => None,
            },
            now,
        ),
{
    match found {
        Some(e) => {
            let action = LoginAction::Touch {
                identity_id: e.id.clone(),
                user_id: e.user_id.clone(),
                now,
            };
            LoginTurn::Ask(LoginState::Touching(e), action)
        },
        None => match invitation_search(&identity, &policy, &key) {
            Ok(search) => LoginTurn::Ask(
                LoginState::Inviting(identity, key),
                LoginAction::FindInvitation(search),
            ),
            Err(e) => LoginTurn::Refuse(e),
        },
    }
}

fn invitation_answered(
    identity: ExternalIdentity,
    key: LoginKey,
    found: Option<IdentityInvitation>,
    now: i64,
    id: String,
) -> (r: LoginTurn)
    ensures
        r@ == after_invitation(
            identity@,
            key@,
            match found {
                Some(i) => Some(i@),
                None => None,
            },
            now,
            id@,
        ),
{
    match found {
        None => LoginTurn::Refuse(CoreError::NotFound),
        Some(invitation) => {
            let bound = bind_identity_with_id(identity, key, invitation.user_id.as_str(), id);
            let row = identity_row(&bound, now);
            LoginTurn::Ask(
                LoginState::Adding(bound, invitation, now),
                LoginAction::AddIdentity(row),
            )
        },
    }
}

fn user_answered(standing: Standing, found: Option<User>) -> (r: LoginTurn)
    ensures
        r@ == after_user(
            standing@,
            match found {
                Some(u) => Some(u@),
                None => None,
            },
        ),
{
    let user = match found {
        Some(user) => user,
        None => return LoginTurn::Refuse(CoreError::NotFound),
    };
    if let Standing::Known(_) = &standing {
        if let Err(e) = active_user(&user) {
            return LoginTurn::Refuse(e);
        }
    }
    let action = LoginAction::ListGroups(user.id.clone());
    LoginTurn::Ask(LoginState::Grouping(standing, user), action)
}

fn groups_answered(standing: Standing, user: User, groups: Vec<String>) -> (r: LoginTurn)
    ensures
        r@ == after_groups(standing@, user@, text::texts(groups@)),
{
    match standing {
        Standing::Known(e) => match existing_login(&user, e, groups) {
            Ok((principal, binding)) => LoginTurn::Accept(principal, binding),
            Err(refusal) => LoginTurn::Refuse(refusal),
        },
        Standing::Bound(e, invitation) => {
            let (principal, binding) = bound_login(&user, e, invitation, groups);
            LoginTurn::Accept(principal, binding)
        },
    }
}

/// Takes an answer of the database.
pub fn continue_login(state: LoginState, event: LoginEvent) -> (r: LoginTurn)
    ensures
        r@ == turn(state@, event@),
{
    match (state, event) {
        (LoginState::Searching(identity, policy, key), LoginEvent::Identity { found, now }) => {
            identity_answered(identity, policy, key, found, now)
        },
        (LoginState::Touching(e), LoginEvent::Done) => {
            let action = LoginAction::ReadUser(e.user_id.clone());
            LoginTurn::Ask(LoginState::Reading(Standing::Known(e)), action)
        },
        (LoginState::Inviting(identity, key), LoginEvent::Invitation { found, now, id }) => {
            invitation_answered(identity, key, found, now, id)
        },
        (LoginState::Adding(e, i, now), LoginEvent::Done) => {
            let action = LoginAction::AcceptInvitation {
                invitation_id: i.id.clone(),
                identity_id: e.id.clone(),
                now,
            };
            LoginTurn::Ask(LoginState::Accepting(e, i, now), action)
        },
        (LoginState::Accepting(e, i, now), LoginEvent::Changed(n)) => {
            if n == 0 {
                return LoginTurn::Refuse(CoreError::NotFound);
            }
            let action = LoginAction::UpdateUser {
                user_id: i.user_id.clone(),
                user: bound_user(&e, &i),
                now,
            };
            LoginTurn::Ask(LoginState::Updating(e, i), action)
        },
        (LoginState::Updating(e, i), LoginEvent::Changed(n)) => {
            if n == 0 {
                return LoginTurn::Refuse(CoreError::NotFound);
            }
            let action = LoginAction::ReadUser(i.user_id.clone());
            LoginTurn::Ask(LoginState::Reading(Standing::Bound(e, i)), action)
        },
        (LoginState::Reading(standing), LoginEvent::User(found)) => user_answered(standing, found),
        (LoginState::Grouping(standing, user), LoginEvent::Groups(groups)) => groups_answered(
            standing,
            user,
            groups,
        ),
        _ => LoginTurn::Refuse(invalid("sqlite: unexpected answer to a login")),
    }
}

// ---------------------------------------------------------------------------
// What holds of all of it
// ---------------------------------------------------------------------------

/// How many answers a login can still wait for.
pub open spec fn answers_left(state: LoginStateView) -> nat {
    match state {
        LoginStateView::Searching(..) => 7,
        LoginStateView::Inviting(..) => 6,
        LoginStateView::Adding(..) => 5,
        LoginStateView::Accepting(..) => 4,
        LoginStateView::Updating(..) => 3,
        LoginStateView::Touching(..) => 3,
        LoginStateView::Reading(_) => 2,
        LoginStateView::Grouping(..) => 1,
    }
}

/// A login comes to an end, whatever the database answers.
pub proof fn law_login_ends(state: LoginStateView, event: LoginEventView)
    ensures
        turn(state, event) matches LoginTurnView::Ask(next, _) ==> answers_left(next)
            < answers_left(state),
{
}

/// Whether a login with this request can have come so far.
pub open spec fn consistent(req: LoginResolutionRequestView, state: LoginStateView) -> bool {
    let key = rows::key_of(req.identity);
    &&& key is Ok
    &&& match state {
        LoginStateView::Searching(identity, policy, k) => {
            &&& identity == req.identity
            &&& policy == req.policy
            &&& k == key->Ok_0
        },
        LoginStateView::Touching(_) => true,
        LoginStateView::Inviting(identity, k) => {
            &&& identity == req.identity
            &&& k == key->Ok_0
            &&& may_accept(req)
        },
        LoginStateView::Adding(e, i, _) => accepted(req, e, i),
        LoginStateView::Accepting(e, i, _) => accepted(req, e, i),
        LoginStateView::Updating(e, i) => accepted(req, e, i),
        LoginStateView::Reading(StandingView::Known(_)) => true,
        LoginStateView::Reading(StandingView::Bound(e, i)) => accepted(req, e, i),
        LoginStateView::Grouping(StandingView::Known(_), user) => user.status == "active"@,
        LoginStateView::Grouping(StandingView::Bound(e, i), _) => accepted(req, e, i),
    }
}

/// Whether a login may accept an invitation: its address is verified, and the
/// policy trusts such addresses.
pub open spec fn may_accept(req: LoginResolutionRequestView) -> bool {
    rows::search_for(req.identity, req.policy, rows::key_of(req.identity)->Ok_0) is Ok
}

/// Whether an identity is what a login gets by accepting an invitation.
pub open spec fn accepted(
    req: LoginResolutionRequestView,
    e: ExternalIdentityView,
    i: IdentityInvitationView,
) -> bool {
    &&& may_accept(req)
    &&& e == rows::bound(req.identity, rows::key_of(req.identity)->Ok_0, i.user_id, e.id)
}

/// A login stays consistent with its request, from the first turn on and
/// whatever the database answers.
pub proof fn law_login_stays_consistent(
    req: LoginResolutionRequestView,
    state: LoginStateView,
    event: LoginEventView,
)
    ensures
        first_turn(req) matches LoginTurnView::Ask(next, _) ==> consistent(req, next),
        consistent(req, state) ==> (turn(state, event) matches LoginTurnView::Ask(next, _)
            ==> consistent(req, next)),
{
}

/// An identity is stored only for a login whose address is verified and trusted
/// by the policy; it belongs to the user who was invited, and the same login is
/// found by it from then on.
pub proof fn law_new_identity_is_trusted(
    req: LoginResolutionRequestView,
    state: LoginStateView,
    event: LoginEventView,
)
    requires
        consistent(req, state),
    ensures
        turn(state, event) matches LoginTurnView::Ask(
            next,
            LoginActionView::AddIdentity(row),
        ) ==> {
            let key = rows::key_of(req.identity)->Ok_0;
            &&& req.identity.email_verified
            &&& accounts::binds_by_email(req.policy)
            &&& event matches LoginEventView::Invitation { found: Some(i), .. }
            &&& row.user_id == i.user_id
            &&& row.provider_id == key.provider_id
            &&& row.issuer == key.issuer
            &&& row.subject == key.subject
            &&& row.status == "active"@
        },
{
}

/// A login with a known identity is accepted only for an active user, and one
/// with a new identity only by accepting an invitation that it may accept.
pub proof fn law_accepted_login_has_standing(
    req: LoginResolutionRequestView,
    state: LoginStateView,
    event: LoginEventView,
)
    requires
        consistent(req, state),
        turn(state, event) is Accept,
    ensures
        state matches LoginStateView::Grouping(standing, user) && match standing {
            StandingView::Known(_) => user.status == "active"@,
            StandingView::Bound(e, i) => accepted(req, e, i),
        },
{
}

/// What comes of a login with a known identity: the answers of the database lead
/// to the user who was found, or to the refusal.
pub proof fn law_known_login_is_answered(
    req: LoginResolutionRequestView,
    e: ExternalIdentityView,
    now: i64,
    user: UserView,
    groups: Seq<Seq<char>>,
)
    requires
        rows::key_of(req.identity) is Ok,
    ensures
        ({
            let s1 = first_turn(req)->Ask_0;
            let s2 = turn(s1, LoginEventView::Identity { found: Some(e), now })->Ask_0;
            let s3 = turn(s2, LoginEventView::Done)->Ask_0;
            let after = turn(s3, LoginEventView::User(Some(user)));
            match rows::known_login(user, e, groups) {
                Err(refusal) => after == LoginTurnView::Refuse(refusal),
                Ok((principal, binding)) => turn(after->Ask_0, LoginEventView::Groups(groups))
                    == LoginTurnView::Accept(principal, binding),
            }
        }),
{
}

/// What comes of a login that accepts an invitation: the user who was invited,
/// bound to the new identity.
pub proof fn law_invited_login_is_answered(
    req: LoginResolutionRequestView,
    now: i64,
    invitation: IdentityInvitationView,
    later: i64,
    id: Seq<char>,
    user: UserView,
    groups: Seq<Seq<char>>,
)
    requires
        rows::key_of(req.identity) is Ok,
        may_accept(req),
    ensures
        ({
            let s1 = first_turn(req)->Ask_0;
            let s2 = turn(s1, LoginEventView::Identity { found: None, now })->Ask_0;
            let found = LoginEventView::Invitation { found: Some(invitation), now: later, id };
            let s3 = turn(s2, found)->Ask_0;
            let s4 = turn(s3, LoginEventView::Done)->Ask_0;
            let s5 = turn(s4, LoginEventView::Changed(1))->Ask_0;
            let s6 = turn(s5, LoginEventView::Changed(1))->Ask_0;
            let s7 = turn(s6, LoginEventView::User(Some(user)))->Ask_0;
            let key = rows::key_of(req.identity)->Ok_0;
            turn(s7, LoginEventView::Groups(groups)) == LoginTurnView::Accept(
                accounts::principal_of(user, key.provider_id, groups),
                LoginBindingResultView {
                    status: "bound_invitation"@,
                    external_identity_id: id,
                    invitation_id: invitation.id,
                },
            )
        }),
{
}

} // verus!
