//! What holds across the operations of the store in memory.

use vstd::prelude::*;

use crate::error::CoreErrorView;
use crate::memory::{grants, resources, state, tokens, CsrfTokenView, StoreView};
use crate::model::{
    AuthSessionView, AuthnTokenInputView, CreateDeviceAuthorizationInputView,
    DeviceAuthorizationView, ExternalIdentityView, GrantEvidence, GrantEvidenceView,
    LoginBindingResultView, LoginResolutionRequestView, LoginStateView, ResourceView,
    TokenPrincipalView, UserView,
};
use crate::nesting;
use crate::order;
use crate::resource_id;
use crate::roles;
use crate::text;
use crate::time;
use crate::walk;

verus! {

// ---------------------------------------------------------------------------
// Access and its evidence
// ---------------------------------------------------------------------------

proof fn lemma_kinds_differ()
    ensures
        "user"@ != "group"@,
{
    reveal_strlit("user");
    reveal_strlit("group");
    assert("user"@.len() == 4);
    assert("group"@.len() == 5);
}

/// Every piece of evidence up to a visit stands for a grant that reaches the user.
proof fn lemma_evidence_is_grants(
    s: StoreView,
    user: Seq<char>,
    resource: Seq<char>,
    v: Seq<(Seq<char>, Option<int>)>,
    labels: Seq<Seq<char>>,
    n: nat,
)
    requires
        n <= v.len(),
    ensures
        forall|e: GrantEvidenceView| #[trigger]
            s.evidence(user, resource, v, labels, n).contains(e) ==> {
                &&& s.grants.contains_key((e.subject_type, e.subject_id, resource))
                &&& s.grants[(e.subject_type, e.subject_id, resource)] == e.role
                &&& (e.subject_type == "user"@ && e.subject_id == user) || (e.subject_type
                    == "group"@ && walk::seen(v, e.subject_id))
            },
        s.grants.contains_key(("user"@, user, resource)) ==> exists|e: GrantEvidenceView| #[trigger]
            s.evidence(user, resource, v, labels, n).contains(e) && e.subject_type == "user"@
                && e.subject_id == user,
        forall|i: int|
            0 <= i < n && s.grants.contains_key(("group"@, (#[trigger] v[i]).0, resource))
                ==> exists|e: GrantEvidenceView| #[trigger]
                s.evidence(user, resource, v, labels, n).contains(e) && e.subject_type == "group"@
                    && e.subject_id == v[i].0,
    decreases n,
{
    let all = s.evidence(user, resource, v, labels, n);
    if n == 0 {
        if s.grants.contains_key(("user"@, user, resource)) {
            assert(all[0].subject_id == user);
            assert(all.contains(all[0]));
        }
    } else {
        let m = (n - 1) as nat;
        lemma_evidence_is_grants(s, user, resource, v, labels, m);
        let before = s.evidence(user, resource, v, labels, m);
        let k = ("group"@, v[m as int].0, resource);
        assert forall|e: GrantEvidenceView| before.contains(e) implies all.contains(e) by {
            let j = choose|j: int| 0 <= j < before.len() && before[j] == e;
            assert(all[j] == e);
        }
        if s.grants.contains_key(k) {
            let last = all[all.len() - 1];
            assert(all.contains(last));
            assert(last.subject_id == v[m as int].0);
            assert forall|e: GrantEvidenceView| #[trigger] all.contains(e) implies e == last
                || before.contains(e) by {
                let j = choose|j: int| 0 <= j < all.len() && all[j] == e;
                if j < before.len() {
                    assert(before[j] == e);
                }
            }
        }
        if s.grants.contains_key(("user"@, user, resource)) {
            let e = choose|e: GrantEvidenceView| #[trigger]
                before.contains(e) && e.subject_type == "user"@ && e.subject_id == user;
            assert(all.contains(e));
        }
        assert forall|i: int|
            0 <= i < n && s.grants.contains_key(
                ("group"@, (#[trigger] v[i]).0, resource),
            ) implies exists|e: GrantEvidenceView| #[trigger]
            all.contains(e) && e.subject_type == "group"@ && e.subject_id == v[i].0 by {
            if i < m {
                let e = choose|e: GrantEvidenceView| #[trigger]
                    before.contains(e) && e.subject_type == "group"@ && e.subject_id == v[i].0;
                assert(all.contains(e));
            }
        }
    }
}

/// A user may do something with a resource exactly if the evidence over nested
/// groups has a role that allows it.
pub proof fn law_evidence_explains_access(
    s: StoreView,
    user: Seq<char>,
    resource: Seq<char>,
    action: Seq<char>,
    out: Seq<GrantEvidenceView>,
)
    requires
        s.explains(user, resource, true, out),
    ensures
        s.may(user, resource, action) <==> exists|i: int|
            0 <= i < out.len() && roles::allows((#[trigger] out[i]).role, action),
{
    let (v, labels) = choose|v: Seq<(Seq<char>, Option<int>)>, labels: Seq<Seq<char>>|
        {
            &&& #[trigger] walk::is_walk(s.direct_groups(user), s.evidence_edges(true), v)
            &&& #[trigger] s.are_labels(v, labels)
            &&& order::is_sorted_copy::<GrantEvidence>(
                out,
                s.evidence(user, resource, v, labels, v.len()),
            )
        };
    let list = s.evidence(user, resource, v, labels, v.len());
    lemma_evidence_is_grants(s, user, resource, v, labels, v.len());
    order::lemma_sorted_copy::<GrantEvidence>(out, list);
    lemma_kinds_differ();
    if s.may(user, resource, action) {
        let (kind, subject) = choose|kind: Seq<char>, subject: Seq<char>|
            {
                &&& #[trigger] s.grants.contains_key((kind, subject, resource))
                &&& s.reaches(user, kind, subject)
                &&& roles::allows(s.grants[(kind, subject, resource)], action)
            };
        if kind == "user"@ {
            let e = choose|e: GrantEvidenceView| #[trigger]
                list.contains(e) && e.subject_type == "user"@ && e.subject_id == user;
            assert(out.contains(e));
            let i = choose|i: int| 0 <= i < out.len() && out[i] == e;
            assert(roles::allows(out[i].role, action));
        } else {
            walk::law_walk_finds_what_is_reached(
                s.direct_groups(user),
                s.evidence_edges(true),
                v,
                subject,
            );
            let j = choose|j: int| 0 <= j < v.len() && (#[trigger] v[j]).0 == subject;
            let e = choose|e: GrantEvidenceView| #[trigger]
                list.contains(e) && e.subject_type == "group"@ && e.subject_id == v[j].0;
            assert(out.contains(e));
            let i = choose|i: int| 0 <= i < out.len() && out[i] == e;
            assert(roles::allows(out[i].role, action));
        }
    }
    if exists|i: int| 0 <= i < out.len() && roles::allows((#[trigger] out[i]).role, action) {
        let i = choose|i: int| 0 <= i < out.len() && roles::allows((#[trigger] out[i]).role, action);
        let e = out[i];
        assert(out.contains(e));
        assert(list.contains(e));
        if e.subject_type == "group"@ {
            walk::law_walk_finds_what_is_reached(
                s.direct_groups(user),
                s.evidence_edges(true),
                v,
                e.subject_id,
            );
        }
        assert(s.grants.contains_key((e.subject_type, e.subject_id, resource)));
        assert(s.reaches(user, e.subject_type, e.subject_id));
    }
}

/// Once a user has a role, the user may do what the role allows.
pub proof fn law_grant_gives_access(
    s: StoreView,
    user: Seq<char>,
    resource: Seq<char>,
    role: Seq<char>,
    action: Seq<char>,
)
    requires
        roles::allows(role, action),
    ensures
        s.with_grant("user"@, user, resource, role).may(user, resource, action),
{
    let t = s.with_grant("user"@, user, resource, role);
    assert(t.grants.contains_key(("user"@, user, resource)));
    assert(t.reaches(user, "user"@, user));
}

/// Once a group has a role, everybody who belongs to it may do what the role allows.
pub proof fn law_group_grant_gives_access(
    s: StoreView,
    user: Seq<char>,
    group: Seq<char>,
    resource: Seq<char>,
    role: Seq<char>,
    action: Seq<char>,
)
    requires
        roles::allows(role, action),
        s.belongs(user, group),
    ensures
        s.with_grant("group"@, group, resource, role).may(user, resource, action),
{
    let t = s.with_grant("group"@, group, resource, role);
    assert(t.grants.contains_key(("group"@, group, resource)));
    law_same_groups_same_members(s, t, user);
    assert(t.reaches(user, "group"@, group));
}

/// To take a role away gives nobody more access.
pub proof fn law_revoke_only_takes(
    s: StoreView,
    kind: Seq<char>,
    subject: Seq<char>,
    resource: Seq<char>,
    user: Seq<char>,
    any: Seq<char>,
    action: Seq<char>,
)
    requires
        s.without_grant(kind, subject, resource).may(user, any, action),
    ensures
        s.may(user, any, action),
{
    let t = s.without_grant(kind, subject, resource);
    law_same_groups_same_members(t, s, user);
    let (k, x) = choose|k: Seq<char>, x: Seq<char>|
        {
            &&& #[trigger] t.grants.contains_key((k, x, any))
            &&& t.reaches(user, k, x)
            &&& roles::allows(t.grants[(k, x, any)], action)
        };
    assert(s.grants.contains_key((k, x, any)));
    assert(s.reaches(user, k, x));
}

/// Who belongs to which group depends on the groups and their members alone.
pub proof fn law_same_groups_same_members(s: StoreView, t: StoreView, user: Seq<char>)
    requires
        s.groups == t.groups,
        s.group_members == t.group_members,
        s.group_groups == t.group_groups,
    ensures
        s.direct_groups(user) == t.direct_groups(user),
        forall|g: Seq<char>| #[trigger] s.belongs(user, g) == t.belongs(user, g),
{
    lemma_same_group_ids(s, t, s.member_list(user));
}

proof fn lemma_same_group_ids(s: StoreView, t: StoreView, named: Seq<Seq<char>>)
    requires
        s.groups == t.groups,
    ensures
        s.group_ids(named) == t.group_ids(named),
    decreases named.len(),
{
    if named.len() > 0 {
        lemma_same_group_ids(s, t, named.drop_last());
        assert(s.has_group_id(named.last()) == t.has_group_id(named.last()));
    }
}

// ---------------------------------------------------------------------------
// Groups
// ---------------------------------------------------------------------------

/// No group is inside a group that is inside it.
pub proof fn law_groups_never_contain_each_other(s: StoreView, a: Seq<char>, b: Seq<char>)
    requires
        s.wf(),
        s.group_groups.contains((a, b)),
    ensures
        !nesting::inside(s.group_groups, b, a),
        a != b,
{
    let i = choose|i: int| 0 <= i < s.group_groups.len() && s.group_groups[i] == (a, b);
    assert(!nesting::inside(s.group_groups, s.group_groups[i].1, s.group_groups[i].0));
    if a == b {
        nesting::lemma_inside_reflexive(s.group_groups, a);
    }
}

/// To take a group out of another undoes putting it in.
pub proof fn law_unnesting_undoes_nesting(
    s: StoreView,
    parent: Seq<char>,
    member: Seq<char>,
    after: StoreView,
)
    requires
        s.wf(),
        s.nesting_refusal(parent, member) is None,
        !s.is_nested(parent, member),
        s.after_nesting(parent, member).is_after_unnesting(parent, member, after),
    ensures
        after == s,
{
    let t = s.after_nesting(parent, member);
    assert(s.nested_pair(parent, member) == t.nested_pair(parent, member)) by {
        assert(s.has_group_id(parent) == t.has_group_id(parent));
        assert(s.has_group_id(member) == t.has_group_id(member));
    }
    let at = choose|at: int|
        0 <= at < t.group_groups.len() && t.nested_pair(parent, member) == Ok::<
            (Seq<char>, Seq<char>),
            CoreErrorView,
        >(#[trigger] t.group_groups[at]) && after == (StoreView {
            group_groups: t.group_groups.remove(at),
            ..t
        });
    let e = t.group_groups[at];
    if at < s.group_groups.len() {
        assert(s.group_groups[at] == e);
        assert(s.group_groups.contains(e));
    }
    assert(t.group_groups.remove(at) =~= s.group_groups);
    assert(after =~= s);
}

/// To take a user out of a group undoes putting the user in, if the user was
/// not there before.
pub proof fn law_removing_undoes_adding_a_member(s: StoreView, user: Seq<char>, group: Seq<char>)
    requires
        s.group_members.contains_key(user),
        !s.member_list(user).contains(group),
    ensures
        s.with_member(user, group).without_member(user, group) == s,
{
    let list = s.member_list(user);
    lemma_without_absent(list, group);
    assert(list.push(group).drop_last() =~= list);
    assert(text::without(list.push(group), group) == list);
    assert(s.with_member(user, group).without_member(user, group) =~= s) by {
        assert(s.group_members.insert(user, list.push(group)).insert(user, list)
            =~= s.group_members);
    }
}

proof fn lemma_without_absent(list: Seq<Seq<char>>, x: Seq<char>)
    requires
        !list.contains(x),
    ensures
        text::without(list, x) == list,
    decreases list.len(),
{
    if list.len() > 0 {
        assert(list.contains(list[list.len() - 1]));
        let less = list.drop_last();
        assert(!less.contains(x)) by {
            if less.contains(x) {
                let i = choose|i: int| 0 <= i < less.len() && less[i] == x;
                assert(list[i] == x);
            }
        }
        lemma_without_absent(less, x);
        assert(less.push(list.last()) =~= list);
    } else {
        assert(text::without(list, x) =~= list);
    }
}

// ---------------------------------------------------------------------------
// Accounts
// ---------------------------------------------------------------------------

/// A user who is shut out is nobody to the bridge: not by identifier, not by
/// browser and not by token.
pub proof fn law_disabled_user_is_shut_out(
    s: StoreView,
    user: Seq<char>,
    browser: Seq<char>,
    jti: Seq<char>,
    now: i64,
)
    requires
        s.wf(),
        s.users.contains_key(user),
    ensures
        s.with_status(user, "disabled"@).principal(user) == Err::<
            TokenPrincipalView,
            CoreErrorView,
        >(CoreErrorView::PermissionDenied),
        s.browser_sessions.contains_key(browser) && s.browser_sessions[browser] == user
            ==> s.with_status(user, "disabled"@).browser_user(browser) == Err::<
            UserView,
            CoreErrorView,
        >(CoreErrorView::NotFound),
        s.issued_tokens.contains_key(jti) && s.issued_tokens[jti].user_id == user
            ==> s.with_status(user, "disabled"@).principal_of_token(jti, now) == Err::<
            TokenPrincipalView,
            CoreErrorView,
        >(CoreErrorView::NotFound),
{
    reveal_strlit("active");
    reveal_strlit("disabled");
    assert("active"@.len() == 6 && "disabled"@.len() == 8);
}

/// A user who was let in again is known again.
pub proof fn law_enabling_undoes_disabling(s: StoreView, user: Seq<char>)
    requires
        s.wf(),
        s.users.contains_key(user),
        s.users[user].status == "active"@,
    ensures
        s.with_status(user, "disabled"@).with_status(user, "active"@) == s,
{
    let u = s.users[user];
    assert(u.id == user);
    assert(s.users.insert(user, UserView { status: "disabled"@, ..u }).insert(user, u)
        =~= s.users);
}

/// Whoever has accepted an invitation is known from then on, as the same user,
/// and the invitation is used up.
pub proof fn law_login_after_binding_is_known(
    s: StoreView,
    i: Seq<char>,
    identity: ExternalIdentityView,
    id: Seq<char>,
    now: i64,
)
    requires
        s.wf(),
        s.is_invitation(i, identity, now),
        s.users.contains_key(s.invitations[i].user_id),
    ensures
        s.after_binding(i, identity, id).knows(identity),
        s.bound_login(i, identity, id) matches Ok((p, b)) && s.after_binding(
            i,
            identity,
            id,
        ).known_login(identity) == Ok::<(TokenPrincipalView, LoginBindingResultView), CoreErrorView>(
            (
                p,
                LoginBindingResultView {
                    status: "existing"@,
                    external_identity_id: id,
                    invitation_id: Seq::empty(),
                },
            ),
        ),
        forall|any: ExternalIdentityView, later: i64|
            !s.after_binding(i, identity, id).is_invitation(i, any, later),
{
    reveal_strlit("pending");
    reveal_strlit("accepted");
    assert("pending"@.len() == 7 && "accepted"@.len() == 8);
    let t = s.after_binding(i, identity, id);
    let user_id = s.invitations[i].user_id;
    assert(t.member_list(user_id) == s.member_list(user_id));
    assert(t.active_user(user_id) == Ok::<UserView, CoreErrorView>(t.users[user_id]));
}

/// A login gives a user only to a known identity or to an invitation: with
/// neither, it changes nothing and finds nobody.
pub proof fn law_unknown_login_changes_nothing(
    s: StoreView,
    req: LoginResolutionRequestView,
    now: i64,
    id: Seq<char>,
    after: StoreView,
    r: Result<(TokenPrincipalView, LoginBindingResultView), CoreErrorView>,
)
    requires
        s.login_post(req, now, id, after, r),
        !s.knows(req.identity),
        !req.identity.email_verified || (forall|i: Seq<char>|
            !s.is_invitation(i, req.identity, now)),
    ensures
        after == s,
        r == Err::<(TokenPrincipalView, LoginBindingResultView), CoreErrorView>(
            CoreErrorView::NotFound,
        ),
{
}

// ---------------------------------------------------------------------------
// What can be used once
// ---------------------------------------------------------------------------

/// A token against forged requests is good once.
pub proof fn law_csrf_token_is_good_once(
    s: StoreView,
    session: Seq<char>,
    token: Seq<char>,
    now: i64,
)
    ensures
        !s.after_csrf(token).csrf_good(session, token, now),
{
}

/// A new token is good for its own session until it is over, and for no other.
pub proof fn law_new_csrf_token_is_good(
    s: StoreView,
    session: Seq<char>,
    other: Seq<char>,
    token: Seq<char>,
    expires_at: i64,
    now: i64,
)
    ensures
        s.with_csrf(
            token,
            CsrfTokenView { session_id: session, expires_at, consumed: false },
        ).csrf_good(other, token, now) <==> other == session && expires_at > now,
{
}

/// What was remembered of a login is given back once.
pub proof fn law_login_state_is_given_back_once(
    s: StoreView,
    secret: Seq<char>,
    kept: LoginStateView,
    now: i64,
)
    ensures
        kept.expires_at > now ==> s.with_login_state(secret, kept).login_state(secret, now) == Ok::<
            LoginStateView,
            CoreErrorView,
        >(kept),
        s.without_login_state(secret).login_state(secret, now) == Err::<
            LoginStateView,
            CoreErrorView,
        >(CoreErrorView::NotFound),
{
}

/// A login is completed once, and the client is told of it once.
pub proof fn law_auth_session_goes_forward(
    s: StoreView,
    id: Seq<char>,
    user: Seq<char>,
    now: i64,
)
    ensures
        !s.after_completion(id, user).is_at(id, "pending"@, now),
        !s.after_use(id).is_at(id, "pending"@, now),
        !s.after_use(id).is_at(id, "completed"@, now),
{
    reveal_strlit("pending");
    reveal_strlit("completed");
    reveal_strlit("consumed");
    assert("pending"@.len() == 7 && "completed"@.len() == 9 && "consumed"@.len() == 8);
}

/// The client finds its login by the code it was given, as long as it is not over.
pub proof fn law_auth_session_is_found_by_its_code(
    s: StoreView,
    code: Seq<char>,
    session: AuthSessionView,
    now: i64,
)
    ensures
        s.with_new_auth_session(code, session).auth_session_by_code(code, now)
            == state::unless_over(session, now),
{
}

/// The approval of a device is given once and used once, and none is given to a
/// device that has waited too long.
pub proof fn law_device_goes_forward(s: StoreView, id: Seq<char>, user: Seq<char>, at: i64, now: i64)
    ensures
        !s.after_approval(id, user, at).approvable(id, now),
        s.after_approval(id, user, at).consumable(id),
        !s.after_consumption(id, at).approvable(id, now),
        !s.after_consumption(id, at).consumable(id),
        !s.after_expiry(id).approvable(id, now),
{
    reveal_strlit("pending");
    reveal_strlit("approved");
    reveal_strlit("consumed");
    reveal_strlit("expired");
    assert("pending"@[0] == 'p' && "approved"@[0] == 'a' && "consumed"@[0] == 'c' && "expired"@[0]
        == 'e');
}

/// A device is found by both of its codes, however they are typed.
pub proof fn law_device_is_found_by_its_codes(
    s: StoreView,
    input: CreateDeviceAuthorizationInputView,
    device: DeviceAuthorizationView,
    typed: Seq<char>,
)
    ensures
        text::upper(text::trimmed(typed)) == text::upper(text::trimmed(input.user_code)) ==> {
            let t = s.with_new_device(input, device);
            t.device_by(t.user_code_index, typed) == Ok::<DeviceAuthorizationView, CoreErrorView>(
                device,
            )
        },
        text::upper(text::trimmed(typed)) == text::upper(text::trimmed(input.device_code)) ==> {
            let t = s.with_new_device(input, device);
            t.device_by(t.device_code_index, typed) == Ok::<DeviceAuthorizationView, CoreErrorView>(
                device,
            )
        },
{
}

// ---------------------------------------------------------------------------
// What was written is read back
// ---------------------------------------------------------------------------

/// A token that was signed is known again, with and without `Bearer` in front.
pub proof fn law_signed_token_verifies(
    s: StoreView,
    input: AuthnTokenInputView,
    jti: Seq<char>,
    now: i64,
    unique: Seq<char>,
)
    ensures
        ({
            let token = tokens::authn_token(input, jti, now, unique).token;
            let known = tokens::known_token(input, jti, now);
            let t = s.with_token(token, known);
            &&& t.verified(token) == Ok::<_, CoreErrorView>(known)
            &&& t.verified("Bearer "@ + token) == Ok::<_, CoreErrorView>(known)
        }),
{
    reveal_strlit("authn:");
    reveal_strlit("Bearer ");
    let token = tokens::authn_token(input, jti, now, unique).token;
    assert(token[0] == 'a');
    assert("Bearer "@[0] == 'B');
    assert(!text::has_prefix(token, "Bearer "@)) by {
        if text::has_prefix(token, "Bearer "@) {
            assert(token.subrange(0, 7)[0] == token[0]);
        }
    }
    let whole = "Bearer "@ + token;
    assert(whole.subrange(0, 7) =~= "Bearer "@);
    assert(whole.skip(7) =~= token);
}

/// A token is good for as long as was asked, or for the usual time.
pub proof fn law_token_lasts_as_asked(
    input: AuthnTokenInputView,
    jti: Seq<char>,
    now: i64,
    unique: Seq<char>,
)
    requires
        0 <= now,
        now + time::seconds_or(input.ttl, tokens::AUTHN_TTL_SECONDS) <= i64::MAX,
    ensures
        tokens::authn_token(input, jti, now, unique).expires_at - tokens::authn_token(
            input,
            jti,
            now,
            unique,
        ).issued_at == time::seconds_or(input.ttl, tokens::AUTHN_TTL_SECONDS),
{
}

/// A repository that was added is found by the resource that stands for it.
pub proof fn law_resource_is_read_back(
    s: StoreView,
    resource: ResourceView,
    id: Seq<char>,
)
    requires
        resources::normalized(resource) is Ok,
    ensures
        ({
            let n = resources::normalized(resource)->Ok_0;
            let t = s.with_resource(resources::filled(n, id));
            &&& t.resources.contains_key(n.resource_id)
            &&& t.resources[n.resource_id] == resources::filled(n, id)
            &&& resource_id::resource_for(n.lore_repository_id) == Some(n.resource_id)
        }),
{
    let n = resources::normalized(resource)->Ok_0;
    reveal_strlit("urc-");
    assert(n.resource_id.len() > 0);
}

/// Removing a repository under a name leaves the repositories that removing it
/// without one leaves, and one record more. No resource, identifier or name leads
/// to it from then on, and every other repository stays as it was.
pub proof fn law_recorded_removal_is_removal(
    s: StoreView,
    k: Seq<char>,
    actor: Seq<char>,
    after: StoreView,
)
    requires
        s.without_resource(k).recorded(
            actor,
            "repository.disable"@,
            "repository"@,
            k,
            Seq::empty(),
            after,
        ),
    ensures
        after == s.without_resource(k).with_audit(after.admin_audit.last()),
        after.admin_audit.len() == s.admin_audit.len() + 1,
        after.admin_audit.drop_last() == s.admin_audit,
        !after.resources.contains_key(k),
        forall|r: ResourceView| #[trigger]
            after.is_resource(r) <==> s.is_resource(r) && r.resource_id != k,
        forall|r: ResourceView| #[trigger]
            after.live_resources().contains(r) <==> s.live_resources().contains(r) && r.resource_id
                != k,
{
    assert(after.admin_audit.drop_last() =~= s.admin_audit);
}

} // verus!
