//! Logins on one database, statement by statement, and what the tables hold
//! afterwards.

use vstd::prelude::*;

use crate::email;
use crate::error::CoreErrorView;
use crate::model::{
    ExternalIdentityView, IdentityInvitationView, LoginBindingResultView,
    LoginResolutionRequestView, UserView,
};
use crate::sqlite;
use crate::sqlite::accounts as rows;
use crate::sqlite::accounts::{InvitationSearchView, LoginKeyView};
use crate::sqlite::login;
use crate::sqlite::login::{LoginActionView, LoginEventView, LoginTurnView};
use crate::text;

verus! {

/// When an identity was seen first, and last.
pub struct SeenView {
    pub first_seen_at: i64,
    pub last_seen_at: i64,
}

/// The tables that logins read and write.
#[verifier::ext_equal]
pub struct AccountsView {
    pub identities: Seq<ExternalIdentityView>,
    /// When each identity was seen, by the identifiers of the identities.
    pub seen: Map<Seq<char>, SeenView>,
    /// The invitations, the oldest first.
    pub invitations: Seq<IdentityInvitationView>,
    /// The users by their identifiers.
    pub users: Map<Seq<char>, UserView>,
    /// When each user was last changed, by the identifiers of the users.
    pub updated: Map<Seq<char>, i64>,
    /// The names of each user's groups.
    pub groups: Map<Seq<char>, Seq<Seq<char>>>,
}

/// Whether an identity is under that key.
pub open spec fn is_under(e: ExternalIdentityView, key: LoginKeyView) -> bool {
    e.provider_id == key.provider_id && e.issuer == key.issuer && e.subject == key.subject
}

/// Whether two pending invitations are for the same address at the same provider.
pub open spec fn are_rivals(a: IdentityInvitationView, b: IdentityInvitationView) -> bool {
    &&& a.status == "pending"@ && b.status == "pending"@
    &&& a.provider_id == b.provider_id && a.issuer == b.issuer
    &&& sqlite::stored(email::normalized(a.email)) is Some
    &&& sqlite::stored(email::normalized(a.email)) == sqlite::stored(email::normalized(b.email))
}

/// Whether an invitation is one that is looked for, at that time.
pub open spec fn is_wanted(i: IdentityInvitationView, search: InvitationSearchView, now: i64) -> bool {
    &&& i.provider_id == search.provider_id
    &&& i.issuer == search.issuer
    &&& sqlite::stored(email::normalized(i.email)) == Some(search.email_normalized)
    &&& i.binding_policy == search.binding_policy
    &&& i.status == "pending"@
    &&& i.expires_at == 0 || i.expires_at > now
}

impl AccountsView {
    /// No two identities are under one key or have one identifier, no two pending
    /// invitations are for one address at one provider, no two invitations have one
    /// identifier, users have their own, and it is known when each identity was seen
    /// and when each user was changed: the tables allow nothing else.
    pub open spec fn wf(self) -> bool {
        &&& forall|i: int, j: int|
            0 <= i < self.identities.len() && 0 <= j < self.identities.len() && i != j ==> {
                &&& !same_key(#[trigger] self.identities[i], #[trigger] self.identities[j])
                &&& self.identities[i].id != self.identities[j].id
            }
        &&& forall|i: int|
            0 <= i < self.identities.len() ==> self.seen.contains_key(
                (#[trigger] self.identities[i]).id,
            )
        &&& forall|i: int, j: int|
            0 <= i < self.invitations.len() && 0 <= j < self.invitations.len() && i != j ==> {
                &&& !are_rivals(#[trigger] self.invitations[i], #[trigger] self.invitations[j])
                &&& self.invitations[i].id != self.invitations[j].id
            }
        &&& forall|k: Seq<char>| #[trigger]
            self.users.contains_key(k) ==> self.users[k].id == k && self.updated.contains_key(k)
    }

    /// Whether the identity at `i` is the active one under a key.
    pub open spec fn is_identity(self, i: int, key: LoginKeyView) -> bool {
        &&& 0 <= i < self.identities.len()
        &&& is_under(self.identities[i], key)
        &&& self.identities[i].status == "active"@
    }

    /// The active identity under a key.
    pub open spec fn identity(self, key: LoginKeyView) -> Option<int> {
        if exists|i: int| self.is_identity(i, key) {
            Some(choose|i: int| self.is_identity(i, key))
        } else {
            None
        }
    }

    /// Whether there is an identity under a key, active or not.
    pub open spec fn knows(self, key: LoginKeyView) -> bool {
        exists|i: int| 0 <= i < self.identities.len() && is_under(#[trigger] self.identities[i], key)
    }

    /// Whether the invitation at `i` is the oldest one that is looked for.
    pub open spec fn is_first(self, i: int, search: InvitationSearchView, now: i64) -> bool {
        &&& 0 <= i < self.invitations.len()
        &&& is_wanted(self.invitations[i], search, now)
        &&& forall|j: int| 0 <= j < i ==> !is_wanted(#[trigger] self.invitations[j], search, now)
    }

    /// The oldest invitation that is looked for.
    pub open spec fn invitation(self, search: InvitationSearchView, now: i64) -> Option<int> {
        if exists|i: int| self.is_first(i, search, now) {
            Some(choose|i: int| self.is_first(i, search, now))
        } else {
            None
        }
    }

    /// Whether the invitation at `i` is the pending one with that identifier.
    pub open spec fn is_pending(self, i: int, id: Seq<char>) -> bool {
        &&& 0 <= i < self.invitations.len()
        &&& self.invitations[i].id == id
        &&& self.invitations[i].status == "pending"@
    }

    /// Whether an identity has that identifier.
    pub open spec fn has_identity(self, id: Seq<char>) -> bool {
        exists|i: int| 0 <= i < self.identities.len() && (#[trigger] self.identities[i]).id == id
    }

    /// Whether another user who is not deleted has that address.
    pub open spec fn is_taken(self, address: Seq<char>, user: Seq<char>) -> bool {
        exists|k: Seq<char>|
            {
                &&& #[trigger] self.users.contains_key(k)
                &&& k != user
                &&& self.users[k].status != "deleted"@
                &&& sqlite::stored(email::normalized(self.users[k].email)) == Some(address)
            }
    }

    /// The names of a user's groups.
    pub open spec fn groups_of(self, user: Seq<char>) -> Seq<Seq<char>> {
        if self.groups.contains_key(user) {
            self.groups[user]
        } else {
            Seq::empty()
        }
    }

    /// The tables after an identity and its user were seen.
    pub open spec fn touched(self, identity_id: Seq<char>, user_id: Seq<char>, now: i64) -> AccountsView {
        AccountsView {
            seen: if self.seen.contains_key(identity_id) {
                self.seen.insert(
                    identity_id,
                    SeenView { last_seen_at: now, ..self.seen[identity_id] },
                )
            } else {
                self.seen
            },
            users: if self.users.contains_key(user_id) {
                self.users.insert(user_id, UserView { last_login_at: now, ..self.users[user_id] })
            } else {
                self.users
            },
            updated: if self.users.contains_key(user_id) {
                self.updated.insert(user_id, now)
            } else {
                self.updated
            },
            ..self
        }
    }

    /// The tables after a statement, and what the database answers; none where the
    /// statement would put two identities under one key or one identifier, or one
    /// with no user, or would give two users one address. `now` is the time, and `id`
    /// an identifier for a new identity.
    pub open spec fn perform(self, action: LoginActionView, now: i64, id: Seq<char>) -> Option<
        (AccountsView, LoginEventView),
    > {
        match action {
            LoginActionView::FindIdentity(key) => {
                let found = match self.identity(key) {
                    Some(i) => Some(self.identities[i]),
                    None => None,
                };
                Some((self, LoginEventView::Identity { found, now }))
            },
            LoginActionView::Touch { identity_id, user_id, now } => {
                Some((self.touched(identity_id, user_id, now), LoginEventView::Done))
            },
            LoginActionView::FindInvitation(search) => {
                let found = match self.invitation(search, now) {
                    Some(i) => Some(self.invitations[i]),
                    None => None,
                };
                Some((self, LoginEventView::Invitation { found, now, id }))
            },
            LoginActionView::AddIdentity(row) => {
                let e = rows::identity_in(row);
                let key = LoginKeyView {
                    provider_id: e.provider_id,
                    issuer: e.issuer,
                    subject: e.subject,
                };
                let seen = SeenView {
                    first_seen_at: row.first_seen_at,
                    last_seen_at: row.last_seen_at,
                };
                if self.knows(key) || self.has_identity(e.id) || !self.users.contains_key(
                    e.user_id,
                ) {
                    None
                } else {
                    Some(
                        (
                            AccountsView {
                                identities: self.identities.push(e),
                                seen: self.seen.insert(e.id, seen),
                                ..self
                            },
                            LoginEventView::Done,
                        ),
                    )
                }
            },
            LoginActionView::AcceptInvitation { invitation_id, identity_id, now } => {
                if exists|i: int| self.is_pending(i, invitation_id) {
                    let i = choose|i: int| self.is_pending(i, invitation_id);
                    let accepted = IdentityInvitationView {
                        status: "accepted"@,
                        accepted_identity_id: identity_id,
                        accepted_at: now,
                        ..self.invitations[i]
                    };
                    let invitations = self.invitations.update(i, accepted);
                    Some((AccountsView { invitations, ..self }, LoginEventView::Changed(1)))
                } else {
                    Some((self, LoginEventView::Changed(0)))
                }
            },
            LoginActionView::UpdateUser { user_id, user, now } => {
                if self.users.contains_key(user_id) && self.is_taken(
                    user.primary_email_normalized,
                    user_id,
                ) {
                    None
                } else if self.users.contains_key(user_id) {
                    let active = UserView {
                        id: user_id,
                        email: user.primary_email,
                        display_name: sqlite::read_back(user.display_name),
                        status: "active"@,
                        last_login_at: now,
                    };
                    let users = self.users.insert(user_id, active);
                    let updated = self.updated.insert(user_id, now);
                    Some((AccountsView { users, updated, ..self }, LoginEventView::Changed(1)))
                } else {
                    Some((self, LoginEventView::Changed(0)))
                }
            },
            LoginActionView::ReadUser(user_id) => {
                let found = if self.users.contains_key(user_id) {
                    Some(self.users[user_id])
                } else {
                    None
                };
                Some((self, LoginEventView::User(found)))
            },
            LoginActionView::ListGroups(user_id) => Some(
                (self, LoginEventView::Groups(self.groups_of(user_id))),
            ),
        }
    }

    /// The tables and the turn after at most `n` statements; none where the database
    /// refuses one.
    pub open spec fn run(self, turn: LoginTurnView, now: i64, id: Seq<char>, n: nat) -> Option<
        (AccountsView, LoginTurnView),
    >
        decreases n,
    {
        if n == 0 {
            Some((self, turn))
        } else {
            match turn {
                LoginTurnView::Ask(state, action) => match self.perform(action, now, id) {
                    Some((tables, event)) => tables.run(
                        login::turn(state, event),
                        now,
                        id,
                        (n - 1) as nat,
                    ),
                    None => None,
                },
                _ => Some((self, turn)),
            }
        }
    }

    /// The tables and the last turn after a login; none where the database refuses a
    /// statement. Where the login is refused, what was done is undone.
    pub open spec fn login(self, req: LoginResolutionRequestView, now: i64, id: Seq<char>) -> Option<
        (AccountsView, LoginTurnView),
    > {
        match self.run(login::first_turn(req), now, id, 7) {
            Some((tables, turn)) => Some(
                if turn is Accept {
                    (tables, turn)
                } else {
                    (self, turn)
                },
            ),
            None => None,
        }
    }
}

/// Whether two identities are under one key.
pub open spec fn same_key(a: ExternalIdentityView, b: ExternalIdentityView) -> bool {
    a.provider_id == b.provider_id && a.issuer == b.issuer && a.subject == b.subject
}

/// What a login looks for among the invitations.
pub open spec fn search_of(req: LoginResolutionRequestView) -> InvitationSearchView {
    rows::search_for(req.identity, req.policy, rows::key_of(req.identity)->Ok_0)->Ok_0
}

/// The tables after a login accepted the invitation at `i`.
pub open spec fn bound_tables(
    t: AccountsView,
    req: LoginResolutionRequestView,
    i: int,
    now: i64,
    id: Seq<char>,
) -> AccountsView {
    let key = rows::key_of(req.identity)->Ok_0;
    let invitation = t.invitations[i];
    let e = rows::bound(req.identity, key, invitation.user_id, id);
    let user = rows::bound_user_of(e, invitation);
    AccountsView {
        identities: t.identities.push(rows::identity_in(rows::row_of_identity(e, now))),
        seen: t.seen.insert(id, SeenView { first_seen_at: now, last_seen_at: now }),
        invitations: t.invitations.update(
            i,
            IdentityInvitationView {
                status: "accepted"@,
                accepted_identity_id: id,
                accepted_at: now,
                ..invitation
            },
        ),
        users: t.users.insert(
            invitation.user_id,
            UserView {
                id: invitation.user_id,
                email: user.primary_email,
                display_name: sqlite::read_back(user.display_name),
                status: "active"@,
                last_login_at: now,
            },
        ),
        updated: t.updated.insert(invitation.user_id, now),
        ..t
    }
}

/// Whether a login with a new identity has an invitation to accept, the one at `i`:
/// the identifier for the identity is new, and the address that the user gets is
/// nobody else's.
pub open spec fn is_invited(
    t: AccountsView,
    req: LoginResolutionRequestView,
    i: int,
    now: i64,
    id: Seq<char>,
) -> bool {
    &&& rows::key_of(req.identity) is Ok
    &&& login::may_accept(req)
    &&& !t.knows(rows::key_of(req.identity)->Ok_0)
    &&& !t.has_identity(id)
    &&& t.invitation(search_of(req), now) == Some(i)
    &&& t.users.contains_key(t.invitations[i].user_id)
    &&& !t.is_taken(email::normalized(req.identity.email), t.invitations[i].user_id)
}

/// A login with a new identity that finds an invitation accepts it: it is told of
/// the identity and the invitation, the invitation is marked, the user who was
/// invited is active, and the time of the login is noted of the identity and of the
/// user.
pub proof fn law_first_login_accepts_its_invitation(
    t: AccountsView,
    req: LoginResolutionRequestView,
    i: int,
    now: i64,
    id: Seq<char>,
)
    requires
        t.wf(),
        is_invited(t, req, i, now, id),
    ensures
        t.login(req, now, id) matches Some((after, LoginTurnView::Accept(principal, binding))) && {
            let invitation = t.invitations[i];
            &&& after == bound_tables(t, req, i, now, id)
            &&& after.wf()
            &&& binding == (LoginBindingResultView {
                status: "bound_invitation"@,
                external_identity_id: id,
                invitation_id: invitation.id,
            })
            &&& principal.user_id == invitation.user_id
            &&& after.invitations[i].status == "accepted"@
            &&& after.invitations[i].accepted_identity_id == id
            &&& after.users[invitation.user_id].status == "active"@
            &&& after.users[invitation.user_id].last_login_at == now
            &&& after.updated[invitation.user_id] == now
            &&& after.seen[id] == (SeenView { first_seen_at: now, last_seen_at: now })
        },
{
    let key = rows::key_of(req.identity)->Ok_0;
    let invitation = t.invitations[i];
    let search = search_of(req);
    assert(t.is_first(i, search, now));
    let e = rows::bound(req.identity, key, invitation.user_id, id);
    let row = rows::row_of_identity(e, now);
    let stored = rows::identity_in(row);
    let after = bound_tables(t, req, i, now, id);
    assert(t.identity(key) is None) by {
        assert forall|k: int| !t.is_identity(k, key) by {
            if t.is_identity(k, key) {
                assert(is_under(t.identities[k], key));
            }
        }
    }
    let t1 = AccountsView { identities: after.identities, seen: after.seen, ..t };
    let t2 = AccountsView { invitations: after.invitations, ..t1 };
    assert(t1.is_pending(i, invitation.id));
    let k = choose|k: int| t1.is_pending(k, invitation.id);
    assert(k == i) by {
        if k != i {
            assert(t.invitations[k].id != t.invitations[i].id);
        }
    }
    let u1 = login::first_turn(req);
    let find = login::turn(u1->Ask_0, LoginEventView::Identity { found: None, now });
    let found = LoginEventView::Invitation { found: Some(invitation), now, id };
    let add = login::turn(find->Ask_0, found);
    let accept = login::turn(add->Ask_0, LoginEventView::Done);
    let update = login::turn(accept->Ask_0, LoginEventView::Changed(1));
    let read = login::turn(update->Ask_0, LoginEventView::Changed(1));
    let user = after.users[invitation.user_id];
    let list = login::turn(read->Ask_0, LoginEventView::User(Some(user)));
    let last = login::turn(list->Ask_0, LoginEventView::Groups(after.groups_of(user.id)));
    login::law_invited_login_is_answered(
        req,
        now,
        invitation,
        now,
        id,
        user,
        after.groups_of(user.id),
    );
    assert(t.perform(u1->Ask_1, now, id) == Some(
        (t, LoginEventView::Identity { found: None, now }),
    ));
    assert(t.perform(find->Ask_1, now, id) == Some((t, found)));
    assert(t.perform(add->Ask_1, now, id) == Some((t1, LoginEventView::Done)));
    assert(t1.perform(accept->Ask_1, now, id) == Some((t2, LoginEventView::Changed(1))));
    let address = rows::bound_user_of(e, invitation).primary_email_normalized;
    assert(!t2.is_taken(address, invitation.user_id)) by {
        text::lemma_trimmed_twice(req.identity.email);
        assert forall|k: Seq<char>| #[trigger] t2.users.contains_key(k) && k
            != invitation.user_id && t2.users[k].status != "deleted"@ implies sqlite::stored(
            email::normalized(t2.users[k].email),
        ) != Some(address) by {
            assert(t.users.contains_key(k));
        }
    }
    assert(t2.perform(update->Ask_1, now, id) == Some((after, LoginEventView::Changed(1))));
    assert(after.perform(read->Ask_1, now, id) == Some((after, LoginEventView::User(Some(user)))));
    reveal_with_fuel(AccountsView::run, 8);
    assert(t.run(u1, now, id, 7) == Some((after, last)));
    assert(after.wf()) by {
        assert forall|a: int, b: int|
            0 <= a < after.identities.len() && 0 <= b < after.identities.len() && a != b implies {
            &&& !same_key(#[trigger] after.identities[a], #[trigger] after.identities[b])
            &&& after.identities[a].id != after.identities[b].id
        } by {
            let n = t.identities.len() as int;
            if a < n && b < n {
                assert(!same_key(t.identities[a], t.identities[b]));
            } else if a < n {
                assert(!is_under(t.identities[a], key));
                assert(t.identities[a].id != id);
            } else {
                assert(!is_under(t.identities[b], key));
                assert(t.identities[b].id != id);
            }
        }
        assert forall|a: int, b: int|
            0 <= a < after.invitations.len() && 0 <= b < after.invitations.len() && a != b implies {
            &&& !are_rivals(#[trigger] after.invitations[a], #[trigger] after.invitations[b])
            &&& after.invitations[a].id != after.invitations[b].id
        } by {
            assert(!are_rivals(t.invitations[a], t.invitations[b]));
            assert(t.invitations[a].id != t.invitations[b].id);
            lemma_statuses();
        }
    }
}

proof fn lemma_statuses()
    ensures
        "accepted"@ != "pending"@,
{
    reveal_strlit("accepted");
    reveal_strlit("pending");
    assert("accepted"@.len() != "pending"@.len());
}

/// A login with a known identity changes nothing but what is noted of the time: when
/// the identity was last seen, and when its user last logged in and was changed. It
/// is told of the identity and of its user.
pub proof fn law_known_login_is_noted(
    t: AccountsView,
    req: LoginResolutionRequestView,
    i: int,
    now: i64,
    id: Seq<char>,
)
    requires
        t.wf(),
        rows::key_of(req.identity) is Ok,
        t.is_identity(i, rows::key_of(req.identity)->Ok_0),
        t.users.contains_key(t.identities[i].user_id),
        t.users[t.identities[i].user_id].status == "active"@,
    ensures
        t.login(req, now, id) matches Some((after, LoginTurnView::Accept(principal, binding))) && {
            let e = t.identities[i];
            &&& after == t.touched(e.id, e.user_id, now)
            &&& after.wf()
            &&& after.seen[e.id] == (SeenView { last_seen_at: now, ..t.seen[e.id] })
            &&& after.users[e.user_id] == (UserView { last_login_at: now, ..t.users[e.user_id] })
            &&& after.updated[e.user_id] == now
            &&& binding == (LoginBindingResultView {
                status: "existing"@,
                external_identity_id: e.id,
                invitation_id: Seq::empty(),
            })
            &&& principal.user_id == e.user_id
        },
{
    let key = rows::key_of(req.identity)->Ok_0;
    let k = t.identity(key)->0;
    assert(t.is_identity(k, key));
    assert(k == i) by {
        if k != i {
            assert(!same_key(t.identities[k], t.identities[i]));
        }
    }
    let e = t.identities[i];
    let t1 = t.touched(e.id, e.user_id, now);
    let user = t1.users[e.user_id];
    let u1 = login::first_turn(req);
    let touch = login::turn(u1->Ask_0, LoginEventView::Identity { found: Some(e), now });
    let read = login::turn(touch->Ask_0, LoginEventView::Done);
    let list = login::turn(read->Ask_0, LoginEventView::User(Some(user)));
    login::law_known_login_is_answered(req, e, now, user, t1.groups_of(user.id));
    reveal_with_fuel(AccountsView::run, 8);
}

/// Two logins, and a third one. The first login of a new identity accepts its
/// invitation. The same login again finds the identity that came of it: it is told
/// of the same identity and the same user, and of no invitation, and only the time is
/// noted. A login of another
/// identity with the same address at the same provider is refused, and changes
/// nothing: there is no second invitation.
pub proof fn law_invitation_is_accepted_once(
    t: AccountsView,
    req: LoginResolutionRequestView,
    i: int,
    now: i64,
    id: Seq<char>,
    later: i64,
    second: Seq<char>,
    other: LoginResolutionRequestView,
    third: Seq<char>,
)
    requires
        t.wf(),
        is_invited(t, req, i, now, id),
        rows::key_of(other.identity) is Ok,
        rows::key_of(other.identity)->Ok_0 == (LoginKeyView {
            subject: rows::key_of(other.identity)->Ok_0.subject,
            ..rows::key_of(req.identity)->Ok_0
        }),
        rows::key_of(other.identity)->Ok_0.subject != rows::key_of(req.identity)->Ok_0.subject,
        !t.knows(rows::key_of(other.identity)->Ok_0),
        email::normalized(other.identity.email) == email::normalized(req.identity.email),
    ensures
        t.login(req, now, id) matches Some((after, LoginTurnView::Accept(first, bound))) && {
            let invitation = t.invitations[i];
            &&& bound == (LoginBindingResultView {
                status: "bound_invitation"@,
                external_identity_id: id,
                invitation_id: invitation.id,
            })
            &&& after.invitations[i].status == "accepted"@
            &&& after.invitations[i].accepted_identity_id == bound.external_identity_id
            &&& after.users[first.user_id].status == "active"@
            &&& after.login(req, later, second) matches Some(
                (noted, LoginTurnView::Accept(again, known)),
            ) && noted == after.touched(id, first.user_id, later) && known == (LoginBindingResultView {
                status: "existing"@,
                external_identity_id: id,
                invitation_id: Seq::empty(),
            }) && again.user_id == first.user_id
            &&& after.login(other, later, third) == Some(
                (after, LoginTurnView::Refuse(CoreErrorView::NotFound)),
            )
        },
{
    let key = rows::key_of(req.identity)->Ok_0;
    let theirs = rows::key_of(other.identity)->Ok_0;
    let invitation = t.invitations[i];
    law_first_login_accepts_its_invitation(t, req, i, now, id);
    let after = bound_tables(t, req, i, now, id);
    let n = t.identities.len() as int;
    assert(after.is_identity(n, key));
    law_known_login_is_noted(after, req, n, later, second);
    assert(t.is_first(i, search_of(req), now));
    assert(after.identity(theirs) is None) by {
        assert forall|k: int| !after.is_identity(k, theirs) by {
            if after.is_identity(k, theirs) && k < n {
                assert(is_under(t.identities[k], theirs));
            }
        }
    }
    if login::may_accept(other) {
        let search = search_of(other);
        assert(after.invitation(search, later) is None) by {
            assert forall|k: int| !after.is_first(k, search, later) by {
                lemma_statuses();
                if after.is_first(k, search, later) && k != i {
                    assert(after.invitations[k] == t.invitations[k]);
                    assert(are_rivals(t.invitations[k], t.invitations[i]));
                }
            }
        }
    }
    reveal_with_fuel(AccountsView::run, 8);
}

} // verus!
