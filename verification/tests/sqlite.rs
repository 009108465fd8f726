use lore_auth_adapters::authz::query::SubjectKind;
use lore_auth_adapters::encoding::{hash_code, hash_secret};
use lore_auth_adapters::error::CoreError;
use lore_auth_adapters::model::{
    AddInvitationInput, AddUserInput, AuthSession, CreateDeviceAuthorizationInput,
    ExternalIdentity, Grant, IdentityInvitation, IssuedToken, LoginResolutionRequest, LoginStateInput,
    LoginTrustPolicy, Resource, SigningKeyMeta, User,
};
use lore_auth_adapters::nesting::GroupEdge;
use lore_auth_adapters::sqlite::accounts::{
    active_user, bind_identity_with_id, bound_login, bound_user, existing_login,
    external_identity_from_row, identity_invitation_from_row, identity_row, invitation_row,
    invitation_search, login_key, new_invitation_with_ids, new_user, new_user_with_id, user_row,
    LoginKey,
};
use lore_auth_adapters::sqlite::audited::{
    admin_audit_failed, grant_added, grant_removed, group_added, member_added, nesting_removed,
    repository_added, signing_key_generated, user_added, user_disabled,
};
use lore_auth_adapters::sqlite::devices::{
    device_from_row, device_params, device_select_sql, device_to_core, new_device_at,
    stored_repository,
};
use lore_auth_adapters::sqlite::granting::{
    begin_grant, begin_search, continue_grant, continue_grant_with_id, continue_search,
    GrantAction, GrantEvent, GrantRequest, GrantState, GrantTurn, UserSearch,
};
use lore_auth_adapters::sqlite::grants::{
    check_role, find_label, grant_evidence, grant_subject_id, grant_subject_kind, group_paths,
    new_grant_with_id, repository_key_of, EvidenceRow, LabelRow,
};
use lore_auth_adapters::sqlite::groups::{
    check_not_itself, group_from_row, new_group_with_id, plan_nesting, NestStep,
};
use lore_auth_adapters::sqlite::login::{
    begin_login, continue_login, LoginAction, LoginEvent, LoginState, LoginTurn,
};
use lore_auth_adapters::sqlite::migrations::{required_versions, schema_is_current};
use lore_auth_adapters::sqlite::recording::{
    begin_change, continue_change, ChangeAction, ChangeEvent, ChangeState, ChangeTurn,
};
use lore_auth_adapters::sqlite::resources::{
    new_source, plan_manual, resource_from_row, upsert_plan, ManualStep, ResourceWithSource,
};
use lore_auth_adapters::sqlite::state::{
    auth_session_from_row, csrf_row_at, live_auth_session, login_state_from_row,
    login_state_texts, match_client_state, new_auth_session_at, new_browser_session_at,
    new_login_state_at, usable_login_state,
};
use lore_auth_adapters::sqlite::tokens::{
    active_key_sql, issued_token_row, key_meta_to_store, public_jwk,
};
use lore_auth_adapters::sqlite::upsert::{
    begin_upsert, continue_upsert, UpsertAction, UpsertEvent, UpsertState, UpsertTurn,
};
use lore_auth_adapters::sqlite::{
    bool_to_i64, escape_like, found_or, none_i64_if_zero, none_if_empty, or_empty, or_zero,
    require_affected, user_from_row, user_search,
};
use lore_auth_adapters::time::Span;
use tokio_rusqlite::rusqlite;

fn invalid(message: &str) -> CoreError {
    CoreError::InvalidArgument(message.to_owned())
}

fn label(id: &str, label: &str) -> LabelRow {
    LabelRow {
        id: id.to_owned(),
        label: label.to_owned(),
    }
}

#[test]
fn empty_values_are_stored_as_null_and_read_back() {
    assert_eq!(none_if_empty(""), None);
    assert_eq!(none_if_empty(" "), None);
    assert_eq!(none_if_empty("a"), Some("a".to_owned()));
    assert_eq!(or_empty(None), "");
    assert_eq!(or_empty(none_if_empty("a")), "a");
    assert_eq!(none_i64_if_zero(0), None);
    assert_eq!(or_zero(none_i64_if_zero(-3)), -3);
    assert_eq!(or_zero(None), 0);
    assert_eq!((bool_to_i64(true), bool_to_i64(false)), (1, 0));
}

#[test]
fn changes_that_change_nothing_are_reported() {
    assert_eq!(require_affected(1, CoreError::NotFound), Ok(()));
    assert_eq!(require_affected(0, CoreError::NotFound), Err(CoreError::NotFound));
    assert_eq!(found_or(Some(3), CoreError::NotFound), Ok(3));
    assert_eq!(
        found_or::<u8>(None, CoreError::AuthSessionNotFound),
        Err(CoreError::AuthSessionNotFound)
    );
}

#[test]
fn searches_take_the_text_as_it_is() {
    assert_eq!(escape_like("a%b_c\\d"), "a\\%b\\_c\\\\d");
    let conn = rusqlite::Connection::open_in_memory().expect("open");
    let texts = ["a%b", "axb", "a_b", "a\\b", "xa%by", ""];
    for needle in ["a%b", "a_b", "\\", "a", "", "%"] {
        let like = format!("%{}%", escape_like(needle));
        for text in texts {
            let found: bool = conn
                .query_row("SELECT ?1 LIKE ?2 ESCAPE '\\'", [text, like.as_str()], |row| row.get(0))
                .expect("query");
            assert_eq!(found, text.contains(needle), "{needle} in {text}");
        }
    }
    let search = user_search(" A_b ", 0);
    assert_eq!(search.query, "a_b");
    assert_eq!(search.like, "%a\\_b%");
    assert_eq!(search.limit, 1);
}

fn added() -> User {
    new_user_with_id(
        AddUserInput {
            email: " Ada@Example.com ".to_owned(),
            display_name: String::new(),
            ..Default::default()
        },
        "user-1".to_owned(),
    )
    .unwrap()
}

#[test]
fn users_are_stored_with_their_address() {
    let user = added();
    assert_eq!(user.id, "user-1");
    assert_eq!(user.email, "Ada@Example.com");
    assert_eq!(user.status, "active");
    let row = user_row(&user, 7);
    assert_eq!(row.primary_email, Some("Ada@Example.com".to_owned()));
    assert_eq!(row.primary_email_normalized, Some("ada@example.com".to_owned()));
    assert_eq!(row.display_name, None);
    assert_eq!((row.created_at, row.updated_at), (7, 7));
    assert_eq!(
        user_from_row(row.id, row.primary_email, row.display_name, row.status, 0),
        user
    );
    assert!(new_user(AddUserInput { email: "ada".to_owned(), ..Default::default() }).is_err());
    assert_eq!(active_user(&user), Ok(()));
    let gone = User { status: "disabled".to_owned(), ..added() };
    assert_eq!(active_user(&gone), Err(CoreError::PermissionDenied));
}

fn identity() -> ExternalIdentity {
    ExternalIdentity {
        provider_id: " google ".to_owned(),
        issuer: "https://issuer ".to_owned(),
        subject: " sub-1".to_owned(),
        email: "Ada@Example.com".to_owned(),
        email_verified: true,
        display_name: "Ada".to_owned(),
        ..Default::default()
    }
}

fn policy() -> LoginTrustPolicy {
    LoginTrustPolicy {
        email_binding: "verified_email_invitation".to_owned(),
        allowed_email_domains: vec![],
    }
}

#[test]
fn logins_are_looked_up_by_their_trimmed_parts() {
    let key = login_key(&identity()).unwrap();
    assert_eq!(
        key,
        LoginKey {
            provider_id: "google".to_owned(),
            issuer: "https://issuer".to_owned(),
            subject: "sub-1".to_owned(),
        }
    );
    assert!(login_key(&ExternalIdentity { subject: " ".to_owned(), ..identity() }).is_err());
    let search = invitation_search(&identity(), &policy(), &key).unwrap();
    assert_eq!(search.email_normalized, "ada@example.com");
    assert_eq!(search.binding_policy, "verified_email_invitation");
    let unverified = ExternalIdentity { email_verified: false, ..identity() };
    assert_eq!(invitation_search(&unverified, &policy(), &key), Err(CoreError::NotFound));
    let strict = LoginTrustPolicy { email_binding: "disabled".to_owned(), ..policy() };
    assert_eq!(invitation_search(&identity(), &strict, &key), Err(CoreError::NotFound));
}

#[test]
fn an_invitation_is_found_by_the_login_it_is_for_and_bound() {
    let (user, invitation) = new_invitation_with_ids(
        AddInvitationInput {
            email: " ada@example.com".to_owned(),
            provider_id: "google".to_owned(),
            issuer: "https://issuer".to_owned(),
            ..Default::default()
        },
        "user-1".to_owned(),
        "invitation-1".to_owned(),
    )
    .unwrap();
    assert_eq!(user.status, "pending");
    assert_eq!(invitation.status, "pending");
    let row = invitation_row(&invitation, 7);
    let key = login_key(&identity()).unwrap();
    let search = invitation_search(&identity(), &policy(), &key).unwrap();
    assert_eq!(row.provider_id, search.provider_id);
    assert_eq!(row.issuer, search.issuer);
    assert_eq!(row.email_normalized, Some(search.email_normalized));
    assert_eq!(row.binding_policy, search.binding_policy);

    let bound = bind_identity_with_id(identity(), key, "user-1", "identity-1".to_owned());
    assert_eq!(bound.provider_id, "google");
    assert_eq!(bound.user_id, "user-1");
    let stored = identity_row(&bound, 9);
    assert_eq!(stored.email_verified, 1);
    assert_eq!((stored.first_seen_at, stored.last_seen_at), (9, 9));
    assert_eq!(external_identity_from_row(identity_row(&bound, 9)), bound);
    let update = bound_user(&bound, &invitation);
    assert_eq!(update.primary_email_normalized, "ada@example.com");
    let read = identity_invitation_from_row(row, None, None);
    assert_eq!(read.accepted_identity_id, "");
    let (principal, result) = bound_login(&added(), bound, read, vec!["devs".to_owned()]);
    assert_eq!(principal.user_id, "user-1");
    assert_eq!(principal.groups, vec!["devs"]);
    assert_eq!(result.status, "bound_invitation");
    assert_eq!(result.external_identity_id, "identity-1");
    assert_eq!(result.invitation_id, "invitation-1");
    assert!(new_invitation_with_ids(
        AddInvitationInput { email: "ada@example.com".to_owned(), ..Default::default() },
        "u".to_owned(),
        "i".to_owned()
    )
    .is_err());
}

#[test]
fn a_known_login_needs_an_active_user() {
    let known = || ExternalIdentity { id: "identity-1".to_owned(), ..identity() };
    let (principal, result) = existing_login(&added(), known(), vec![]).unwrap();
    assert_eq!(principal.user_id, "user-1");
    assert_eq!(result.status, "existing");
    assert_eq!(result.external_identity_id, "identity-1");
    let gone = User { status: "disabled".to_owned(), ..added() };
    assert_eq!(existing_login(&gone, known(), vec![]).unwrap_err(), CoreError::PermissionDenied);
}

#[test]
fn nesting_is_planned_without_cycles() {
    assert_eq!(check_not_itself("a", "b"), Ok(()));
    assert_eq!(check_not_itself("a", "a"), Err(invalid("group cannot contain itself")));
    assert_eq!(plan_nesting("a", "b", true, true), Ok(NestStep::Keep));
    assert_eq!(plan_nesting("a", "b", false, false), Ok(NestStep::Insert));
    assert_eq!(
        plan_nesting("a", "b", false, true),
        Err(invalid("group nesting would create a cycle"))
    );
    let group = new_group_with_id(" devs ", "people", "group-1".to_owned()).unwrap();
    assert_eq!((group.name.as_str(), group.description.as_str()), ("devs", "people"));
    assert_eq!(
        new_group_with_id(" ", "", "g".to_owned()).unwrap_err(),
        invalid("group name must not be empty")
    );
    assert_eq!(group_from_row("g".to_owned(), "n".to_owned(), None).description, "");
}

#[test]
fn resources_are_found_by_what_they_stand_for() {
    let plan = upsert_plan(Resource {
        resource_id: "urc-alpha".to_owned(),
        ..Default::default()
    })
    .unwrap();
    assert_eq!(plan.lore_repository_id, "alpha");
    let read = resource_from_row(
        "r1".to_owned(),
        plan.name,
        plan.remote_url,
        plan.lore_repository_id,
        "active".to_owned(),
    );
    assert_eq!(read.resource_id, "urc-alpha");
    assert!(upsert_plan(Resource::default()).is_err());
    assert_eq!(plan_manual(None), Ok(ManualStep::Insert));
    let found = |source: &str| {
        Some(ResourceWithSource {
            resource: Resource { id: "r1".to_owned(), ..Default::default() },
            created_by_source: source.to_owned(),
        })
    };
    assert_eq!(plan_manual(found("manual")), Ok(ManualStep::Update("r1".to_owned())));
    assert!(plan_manual(found("auto")).is_err());
    assert_ne!(new_source(true), new_source(false));
}

#[test]
fn a_device_is_found_however_its_code_is_typed() {
    let params = device_params(CreateDeviceAuthorizationInput {
        device_code: "secret".to_owned(),
        user_code: "abcd-ef01".to_owned(),
        requested_remote_url: "lore://host/alpha".to_owned(),
        requested_repository_id: String::new(),
        ttl: Span::from_secs(60),
    });
    assert_eq!(params.user_code_hash, hash_code(" ABCD-EF01 "));
    assert_eq!(params.device_code_hash, hash_code("secret"));
    assert_eq!(params.ttl_seconds, 60);
    let device = new_device_at(params, "device-1".to_owned(), 1_000);
    assert_eq!(device.status, "pending");
    assert_eq!(device.expires_at, 1_060);
    assert_eq!(stored_repository(&device), None);
    let device = device_from_row(device, Some("r1".to_owned()), None, Some(5), None);
    assert_eq!(device.requested_repository_id, "r1");
    assert_eq!((device.approved_at, device.consumed_at), (5, 0));
    assert_eq!(device_to_core(device).id, "device-1");
    assert!(device_select_sql("WHERE id = ?1").contains("WHERE id = ?1"));
}

#[test]
fn sessions_live_until_they_end() {
    let session = new_auth_session_at(" state ", Span::from_secs(60), "s1".to_owned(), "n1".to_owned(), 1_000);
    assert_eq!(session.expires_at, 1_060);
    assert_eq!(session.status, "pending");
    assert!(match_client_state(&session, "state"));
    assert!(!match_client_state(&session, "other"));
    let again = || {
        auth_session_from_row(
            "s1".to_owned(),
            hash_secret("state"),
            "pending".to_owned(),
            None,
            "n1".to_owned(),
            1_060,
        )
    };
    assert_eq!(again(), session);
    assert_eq!(live_auth_session(Some(again()), 1_059).unwrap().id, "s1");
    assert_eq!(live_auth_session(Some(again()), 1_060).unwrap_err(), CoreError::AuthSessionNotFound);
    assert_eq!(live_auth_session(None, 0).unwrap_err(), CoreError::AuthSessionNotFound);
    let completed = AuthSession { status: "completed".to_owned(), ..again() };
    assert_eq!(live_auth_session(Some(completed), 1_059).unwrap().status, "completed");
    let browser = new_browser_session_at("user-1", Span::from_secs(5), "b1".to_owned(), 10);
    assert_eq!((browser.user_id.as_str(), browser.expires_at), ("user-1", 15));
    let csrf = csrf_row_at("token", "b1", Span::from_secs(5), 10);
    assert_eq!(csrf.token_hash, hash_secret("token"));
    assert_eq!((csrf.created_at, csrf.expires_at), (10, 15));
}

#[test]
fn login_state_is_good_once_and_in_time() {
    let state = new_login_state_at(
        LoginStateInput {
            provider_id: "google".to_owned(),
            nonce: "n".to_owned(),
            login_url_nonce: String::new(),
            return_path: "/".to_owned(),
            private_state: vec![1, 2],
        },
        Span::from_secs(60),
        "id-1".to_owned(),
        1_000,
    );
    let texts = || login_state_texts(&state);
    assert_eq!(texts().nonce, Some("n".to_owned()));
    assert_eq!(texts().login_url_nonce, None);
    let stored = |consumed_at: Option<i64>| {
        Some(login_state_from_row(
            "id-1".to_owned(),
            "google".to_owned(),
            texts(),
            Some(vec![1, 2]),
            1_060,
            consumed_at,
        ))
    };
    assert_eq!(usable_login_state(stored(None), 1_059).unwrap(), state);
    assert_eq!(usable_login_state(stored(None), 1_060).unwrap_err(), CoreError::NotFound);
    assert_eq!(usable_login_state(stored(Some(1_001)), 1_002).unwrap_err(), CoreError::NotFound);
    assert_eq!(usable_login_state(None, 0).unwrap_err(), CoreError::NotFound);
}

#[test]
fn tokens_and_keys_are_stored() {
    let row = issued_token_row(&IssuedToken {
        jti: "jti-1".to_owned(),
        kind: "authn".to_owned(),
        audience: vec!["a\"b".to_owned(), "c".to_owned()],
        issued_at: 1,
        expires_at: 2,
        ..Default::default()
    });
    assert_eq!(row.audience_json, "[\"a\\\"b\",\"c\"]");
    assert_eq!(row.user_id, None);
    assert_eq!(row.token_kind, "authn");
    assert_eq!(key_meta_to_store(SigningKeyMeta::default()).status, "active");
    assert_eq!(public_jwk("{ \"kid\" : \"k\" }").unwrap(), "{\"kid\":\"k\"}");
    assert!(public_jwk("{").is_err());
    assert_ne!(active_key_sql(""), active_key_sql("k"));
}

#[test]
fn grants_need_a_known_role_and_subject() {
    assert_eq!(check_role("reader"), Ok(()));
    assert!(check_role("owner").is_err());
    assert_eq!(grant_subject_kind("user"), Ok(SubjectKind::User));
    assert_eq!(grant_subject_kind("group"), Ok(SubjectKind::Group));
    assert!(grant_subject_kind("robot").is_err());
    assert_eq!(
        grant_subject_id(SubjectKind::User, "ada", Ok("user-1".to_owned())),
        Ok("user-1".to_owned())
    );
    let grant = new_grant_with_id("user", "user-1".to_owned(), "r1".to_owned(), "reader", "g1".to_owned());
    assert_eq!(grant.repository_id, "r1");
    assert_eq!(repository_key_of("urc-alpha"), Ok("alpha".to_owned()));
}

#[test]
fn evidence_shows_the_way_to_each_grant() {
    let direct = vec![label("devs", "Devs")];
    let names = vec![label("devs", "Devs"), label("staff", "Staff"), label("other", "Other")];
    let edges = vec![GroupEdge { member: "devs".to_owned(), parent: "staff".to_owned() }];
    let reachable = vec!["devs".to_owned(), "staff".to_owned()];
    let paths = group_paths(&direct, &edges, &names, true, &reachable);
    assert_eq!(find_label(&paths, "staff"), Some("Devs -> Staff".to_owned()));
    assert_eq!(find_label(&paths, "other"), None);
    let row = |kind: &str, id: &str, name: &str| EvidenceRow {
        subject_type: kind.to_owned(),
        subject_id: id.to_owned(),
        subject_name: name.to_owned(),
        role: "reader".to_owned(),
    };
    let evidence = grant_evidence(
        "ada",
        &vec![row("user", "user-1", "ada")],
        &vec![row("group", "staff", "Staff")],
        &paths,
    );
    assert_eq!(evidence.len(), 2);
    assert_eq!(evidence[0].path, "user:ada -> Devs -> Staff -> grant");
    assert_eq!(evidence[1].path, "user:ada -> grant");
    let only_direct = group_paths(&direct, &edges, &names, false, &vec!["devs".to_owned()]);
    assert_eq!(find_label(&only_direct, "staff"), None);
    assert_eq!(find_label(&only_direct, "devs"), Some("Devs".to_owned()));
}

#[test]
fn audit_entries_name_what_was_done() {
    let user = added();
    let cases = vec![
        (grant_added("root", "g1", "user", "u", "alpha", "reader"), "grant.add", "g1"),
        (grant_removed("root", "user", "u", "alpha", "reader"), "grant.remove", "user:u:alpha:reader"),
        (user_added("root", &user), "user.add", "user-1"),
        (user_disabled("root", &user), "user.disable", "user-1"),
        (repository_added("root", "urc-alpha", "alpha"), "repository.add", "urc-alpha"),
        (group_added("root", "g1", "devs"), "group.add", "g1"),
        (member_added("root", "devs", "ada"), "group.member.add", "devs"),
        (nesting_removed("root", "staff", "devs"), "group.nest.remove", "staff"),
        (
            signing_key_generated("root", &SigningKeyMeta { kid: "k".to_owned(), ..Default::default() }, 2048),
            "signing_key.generate",
            "k",
        ),
    ];
    for (entry, action, object) in cases {
        assert_eq!(entry.actor, "root");
        assert_eq!(entry.action, action);
        assert_eq!(entry.object_id, object);
    }
    assert_eq!(
        admin_audit_failed("disk"),
        CoreError::AdminAuditFailed("disk".to_owned())
    );
}

#[test]
fn a_schema_is_current_with_every_migration() {
    let versions = required_versions();
    assert!(!versions.is_empty());
    assert!(schema_is_current(&versions));
    let mut later = required_versions();
    later.push("9999_later".to_owned());
    assert!(schema_is_current(&later));
    let mut missing = required_versions();
    missing.remove(0);
    assert!(!schema_is_current(&missing));
    assert!(!schema_is_current(&vec![]));
}

fn request(identity: ExternalIdentity) -> LoginResolutionRequest {
    LoginResolutionRequest { identity, policy: policy() }
}

fn asked(turn: LoginTurn) -> (LoginState, LoginAction) {
    match turn {
        LoginTurn::Ask(state, action) => (state, action),
        other => panic!("{other:?}"),
    }
}

fn searching() -> LoginState {
    let (state, action) = asked(begin_login(request(identity())));
    assert!(matches!(action, LoginAction::FindIdentity(key) if key.subject == "sub-1"));
    state
}

#[test]
fn a_known_login_asks_for_its_user_and_groups() {
    let known = ExternalIdentity {
        id: "identity-1".to_owned(),
        user_id: "user-1".to_owned(),
        ..identity()
    };
    let found = LoginEvent::Identity { found: Some(known), now: 7 };
    let (state, action) = asked(continue_login(searching(), found));
    assert_eq!(
        action,
        LoginAction::Touch {
            identity_id: "identity-1".to_owned(),
            user_id: "user-1".to_owned(),
            now: 7,
        }
    );
    let (state, action) = asked(continue_login(state, LoginEvent::Done));
    assert_eq!(action, LoginAction::ReadUser("user-1".to_owned()));
    let (state, action) = asked(continue_login(state, LoginEvent::User(Some(added()))));
    assert_eq!(action, LoginAction::ListGroups("user-1".to_owned()));
    match continue_login(state, LoginEvent::Groups(vec!["devs".to_owned()])) {
        LoginTurn::Accept(principal, binding) => {
            assert_eq!(principal.user_id, "user-1");
            assert_eq!(principal.groups, vec!["devs"]);
            assert_eq!(binding.status, "existing");
            assert_eq!(binding.external_identity_id, "identity-1");
        }
        other => panic!("{other:?}"),
    }
}

#[test]
fn a_login_is_refused_where_the_database_leaves_no_way() {
    let unverified = ExternalIdentity { email_verified: false, ..identity() };
    let (state, _) = asked(begin_login(request(unverified)));
    let unknown = || LoginEvent::Identity { found: None, now: 7 };
    assert_eq!(continue_login(state, unknown()), LoginTurn::Refuse(CoreError::NotFound));
    let (state, _) = asked(continue_login(searching(), unknown()));
    let nobody = LoginEvent::Invitation { found: None, now: 8, id: "x".to_owned() };
    assert_eq!(continue_login(state, nobody), LoginTurn::Refuse(CoreError::NotFound));
    let known = LoginEvent::Identity { found: Some(identity()), now: 7 };
    let (state, _) = asked(continue_login(searching(), known));
    let (state, _) = asked(continue_login(state, LoginEvent::Done));
    let gone = User { status: "disabled".to_owned(), ..added() };
    assert_eq!(
        continue_login(state, LoginEvent::User(Some(gone))),
        LoginTurn::Refuse(CoreError::PermissionDenied)
    );
    assert_eq!(
        continue_login(searching(), LoginEvent::Done),
        LoginTurn::Refuse(invalid("sqlite: unexpected answer to a login"))
    );
    assert!(matches!(
        begin_login(request(ExternalIdentity::default())),
        LoginTurn::Refuse(CoreError::InvalidArgument(_))
    ));
}

#[test]
fn an_invited_login_is_bound_turn_by_turn() {
    let (state, action) = asked(continue_login(searching(), LoginEvent::Identity { found: None, now: 7 }));
    assert!(matches!(action, LoginAction::FindInvitation(s) if s.email_normalized == "ada@example.com"));
    let invitation = IdentityInvitation {
        id: "invitation-1".to_owned(),
        user_id: "user-1".to_owned(),
        ..Default::default()
    };
    let found = LoginEvent::Invitation { found: Some(invitation), now: 8, id: "identity-1".to_owned() };
    let (state, action) = asked(continue_login(state, found));
    match action {
        LoginAction::AddIdentity(row) => {
            assert_eq!(row.id, "identity-1");
            assert_eq!(row.user_id, "user-1");
            assert_eq!(row.first_seen_at, 8);
        }
        other => panic!("{other:?}"),
    }
    let (state, action) = asked(continue_login(state, LoginEvent::Done));
    assert_eq!(
        action,
        LoginAction::AcceptInvitation {
            invitation_id: "invitation-1".to_owned(),
            identity_id: "identity-1".to_owned(),
            now: 8,
        }
    );
    let (state, action) = asked(continue_login(state, LoginEvent::Changed(1)));
    assert!(matches!(
        action,
        LoginAction::UpdateUser { user, now: 8, .. } if user.primary_email == "Ada@Example.com"
    ));
    let (state, action) = asked(continue_login(state, LoginEvent::Changed(1)));
    assert_eq!(action, LoginAction::ReadUser("user-1".to_owned()));
    let (state, _) = asked(continue_login(state, LoginEvent::User(Some(added()))));
    match continue_login(state, LoginEvent::Groups(vec![])) {
        LoginTurn::Accept(_, binding) => {
            assert_eq!(binding.status, "bound_invitation");
            assert_eq!(binding.external_identity_id, "identity-1");
            assert_eq!(binding.invitation_id, "invitation-1");
        }
        other => panic!("{other:?}"),
    }
}

fn upsert(remote_url: &str) -> (UpsertState, UpsertAction) {
    let resource = Resource {
        resource_id: "urc-alpha".to_owned(),
        remote_url: remote_url.to_owned(),
        ..Default::default()
    };
    match begin_upsert(resource) {
        UpsertTurn::Ask(state, action) => (state, action),
        other => panic!("{other:?}"),
    }
}

#[test]
fn a_repository_is_stored_turn_by_turn() {
    let (state, action) = upsert("");
    assert_eq!(action, UpsertAction::Reactivate("alpha".to_owned()));
    assert_eq!(continue_upsert(state, UpsertEvent::Changed(1)), UpsertTurn::Finish);
    let (state, _) = upsert("");
    match continue_upsert(state, UpsertEvent::Changed(0)) {
        UpsertTurn::Ask(state, action) => {
            assert_eq!(
                action,
                UpsertAction::Insert {
                    lore_repository_id: "alpha".to_owned(),
                    name: "alpha".to_owned(),
                    remote_url: String::new(),
                    source: "rebac_create_resource",
                }
            );
            assert_eq!(continue_upsert(state, UpsertEvent::Changed(1)), UpsertTurn::Finish);
        }
        other => panic!("{other:?}"),
    }
    let (state, action) = upsert("lore://host/alpha");
    assert_eq!(action, UpsertAction::Find("alpha".to_owned()));
    let found = |source: &str| {
        UpsertEvent::Found(Some(ResourceWithSource {
            resource: Resource {
                id: "r1".to_owned(),
                lore_repository_id: "alpha".to_owned(),
                ..Default::default()
            },
            created_by_source: source.to_owned(),
        }))
    };
    match continue_upsert(state, found("manual")) {
        UpsertTurn::Ask(state, action) => {
            assert!(matches!(action, UpsertAction::Update { id, .. } if id == "r1"));
            assert_eq!(
                continue_upsert(state, UpsertEvent::Changed(0)),
                UpsertTurn::Refuse(CoreError::NotFound)
            );
        }
        other => panic!("{other:?}"),
    }
    let (state, _) = upsert("lore://host/alpha");
    assert_eq!(
        continue_upsert(state, found("rebac_create_resource")),
        UpsertTurn::Refuse(invalid("repository alpha is managed by rebac_create_resource"))
    );
    assert!(matches!(begin_upsert(Resource::default()), UpsertTurn::Refuse(_)));
}

#[test]
fn paths_are_the_shortest_ways() {
    let direct = vec![label("a", "A"), label("b", "b")];
    let names = vec![label("a", "A"), label("c", "C"), label("d", "D")];
    let edge = |member: &str, parent: &str| GroupEdge {
        member: member.to_owned(),
        parent: parent.to_owned(),
    };
    let edges = vec![
        edge("a", "c"),
        edge("c", "d"),
        edge("b", "d"),
        edge("d", "e"),
        edge("e", "a"),
        edge("x", "y"),
    ];
    let reachable: Vec<String> = ["a", "b", "c", "d", "e"].iter().map(|g| g.to_string()).collect();
    let paths = group_paths(&direct, &edges, &names, true, &reachable);
    assert_eq!(paths.len(), 5);
    assert_eq!(find_label(&paths, "a"), Some("A".to_owned()));
    assert_eq!(find_label(&paths, "b"), Some("b".to_owned()));
    assert_eq!(find_label(&paths, "c"), Some("A -> C".to_owned()));
    assert_eq!(find_label(&paths, "d"), Some("b -> D".to_owned()));
    assert_eq!(find_label(&paths, "e"), Some("b -> D -> e".to_owned()));
    assert_eq!(find_label(&paths, "y"), None);
}

/// The tables of one user who was invited.
struct Tables {
    identities: Vec<ExternalIdentity>,
    seen: Vec<(i64, i64)>,
    invitation: IdentityInvitation,
    user: User,
    updated: i64,
}

impl Tables {
    fn new() -> Tables {
        let (user, invitation) = new_invitation_with_ids(
            AddInvitationInput {
                provider_id: "google".to_owned(),
                issuer: "https://issuer".to_owned(),
                email: "ada@example.com".to_owned(),
                ..Default::default()
            },
            "user-1".to_owned(),
            "invitation-1".to_owned(),
        )
        .unwrap();
        Tables { identities: vec![], seen: vec![], invitation, user, updated: 1 }
    }

    fn perform(&mut self, action: LoginAction, now: i64, id: &str) -> LoginEvent {
        match action {
            LoginAction::FindIdentity(key) => {
                let found = self.identities.iter().find(|e| e.subject == key.subject).cloned();
                LoginEvent::Identity { found, now }
            }
            LoginAction::Touch { identity_id, now, .. } => {
                let i = self.identities.iter().position(|e| e.id == identity_id).unwrap();
                self.seen[i].1 = now;
                self.user.last_login_at = now;
                self.updated = now;
                LoginEvent::Done
            }
            LoginAction::FindInvitation(search) => {
                let i = &self.invitation;
                let wanted = i.status == "pending" && i.email == search.email_normalized;
                let found = if wanted { Some(i.clone()) } else { None };
                LoginEvent::Invitation { found, now, id: id.to_owned() }
            }
            LoginAction::AddIdentity(row) => {
                self.seen.push((row.first_seen_at, row.last_seen_at));
                self.identities.push(external_identity_from_row(row));
                LoginEvent::Done
            }
            LoginAction::AcceptInvitation { identity_id, now, .. } => {
                self.invitation.status = "accepted".to_owned();
                self.invitation.accepted_identity_id = identity_id;
                self.invitation.accepted_at = now;
                LoginEvent::Changed(1)
            }
            LoginAction::UpdateUser { user, now, .. } => {
                self.user.email = user.primary_email;
                self.user.status = "active".to_owned();
                self.user.last_login_at = now;
                self.updated = now;
                LoginEvent::Changed(1)
            }
            LoginAction::ReadUser(_) => LoginEvent::User(Some(self.user.clone())),
            LoginAction::ListGroups(_) => LoginEvent::Groups(vec![]),
        }
    }

    fn login(&mut self, req: LoginResolutionRequest, now: i64, id: &str) -> LoginTurn {
        let mut turn = begin_login(req);
        while let LoginTurn::Ask(state, action) = turn {
            turn = continue_login(state, self.perform(action, now, id));
        }
        turn
    }
}

#[test]
fn an_invitation_is_accepted_once() {
    let mut tables = Tables::new();
    match tables.login(request(identity()), 10, "identity-1") {
        LoginTurn::Accept(principal, binding) => {
            assert_eq!(principal.user_id, "user-1");
            assert_eq!(binding.status, "bound_invitation");
            assert_eq!(binding.external_identity_id, "identity-1");
            assert_eq!(binding.invitation_id, "invitation-1");
        }
        other => panic!("{other:?}"),
    }
    assert_eq!(tables.invitation.status, "accepted");
    assert_eq!(tables.invitation.accepted_identity_id, "identity-1");
    assert_eq!(tables.user.status, "active");
    assert_eq!(tables.user.last_login_at, 10);
    assert_eq!(tables.updated, 10);
    assert_eq!(tables.seen, vec![(10, 10)]);
    match tables.login(request(identity()), 20, "identity-2") {
        LoginTurn::Accept(principal, binding) => {
            assert_eq!(principal.user_id, "user-1");
            assert_eq!(binding.status, "existing");
            assert_eq!(binding.external_identity_id, "identity-1");
            assert_eq!(binding.invitation_id, "");
        }
        other => panic!("{other:?}"),
    }
    assert_eq!(tables.seen, vec![(10, 20)]);
    assert_eq!(tables.user.last_login_at, 20);
    assert_eq!(tables.updated, 20);
    let other = ExternalIdentity { subject: "sub-2".to_owned(), ..identity() };
    assert_eq!(
        tables.login(request(other), 30, "identity-3"),
        LoginTurn::Refuse(CoreError::NotFound)
    );
    assert_eq!(tables.seen, vec![(10, 20)]);
}

#[test]
fn users_are_found_by_identifier_or_address() {
    let by_id = begin_search(" Ada@Example.com");
    assert_eq!(by_id, UserSearch::ById(" Ada@Example.com".to_owned()));
    assert_eq!(
        continue_search(begin_search("user-1"), Some("user-1".to_owned())),
        Err(Some("user-1".to_owned()))
    );
    let by_address = continue_search(by_id, None).unwrap();
    assert_eq!(by_address, UserSearch::ByAddress("ada@example.com".to_owned()));
    assert_eq!(
        continue_search(by_address, Some("user-1".to_owned())),
        Err(Some("user-1".to_owned()))
    );
    let by_address = UserSearch::ByAddress("ada@example.com".to_owned());
    assert_eq!(continue_search(by_address, None), Err(None));
}

fn grant_request(subject_type: &str, role: &str) -> GrantRequest {
    GrantRequest {
        subject_type: subject_type.to_owned(),
        subject: "ada".to_owned(),
        repo: "alpha".to_owned(),
        role: role.to_owned(),
    }
}

fn granted(
    conn: &rusqlite::Connection,
    req: GrantRequest,
    subject: Result<&str, CoreError>,
    repository: Option<&str>,
    id: &str,
) -> Result<Grant, CoreError> {
    let mut subject = Some(subject.map(|s| s.to_owned()));
    let mut turn = begin_grant(req);
    loop {
        let (state, action) = match turn {
            GrantTurn::Ask(state, action) => (state, action),
            GrantTurn::Finish(grant) => return Ok(grant),
            GrantTurn::Refuse(e) => return Err(e),
        };
        let event = match action {
            GrantAction::FindSubject(_, name) => {
                assert_eq!(name, "ada");
                GrantEvent::Subject(subject.take().unwrap())
            }
            GrantAction::FindRepository(name) => {
                assert_eq!(name, "alpha");
                GrantEvent::Repository(repository.map(|r| r.to_owned()))
            }
            GrantAction::Add(g) => {
                conn.execute(
                    "INSERT INTO grants VALUES(?1, ?2, ?3, ?4, ?5)",
                    [g.id, g.subject_type, g.subject_id, g.repository_id, g.role],
                )
                .map_err(|_| invalid("sqlite: taken"))?;
                GrantEvent::Added
            }
        };
        turn = continue_grant_with_id(state, event, id.to_owned());
    }
}

fn grants_database() -> rusqlite::Connection {
    let conn = rusqlite::Connection::open_in_memory().expect("open");
    conn.execute_batch(
        "CREATE TABLE grants(id TEXT PRIMARY KEY, subject_type TEXT, subject_id TEXT,
           repository_id TEXT, role TEXT,
           UNIQUE(subject_type, subject_id, repository_id, role));
         CREATE TABLE admin_audit(id TEXT PRIMARY KEY, actor TEXT, action TEXT, object_id TEXT);",
    )
    .expect("tables");
    conn
}

fn count(conn: &rusqlite::Connection, table: &str) -> i64 {
    conn.query_row(&format!("SELECT COUNT(*) FROM {table}"), [], |row| row.get(0)).expect("count")
}

#[test]
fn a_grant_is_made_where_it_can_be() {
    let conn = grants_database();
    let reader = || grant_request("user", "reader");
    let grant = granted(&conn, reader(), Ok("user-1"), Some("r1"), "g1").unwrap();
    assert_eq!(
        grant,
        new_grant_with_id("user", "user-1".to_owned(), "r1".to_owned(), "reader", "g1".to_owned())
    );
    assert_eq!(count(&conn, "grants"), 1);
    assert!(granted(&conn, reader(), Ok("user-1"), Some("r1"), "g2").is_err());
    assert_eq!(
        granted(&conn, grant_request("user", "owner"), Ok("user-1"), Some("r1"), "g2").unwrap_err(),
        invalid("unknown grant role \"owner\"")
    );
    assert_eq!(
        granted(&conn, grant_request("team", "reader"), Ok("t"), Some("r1"), "g2").unwrap_err(),
        invalid("unknown grant subject_type \"team\"")
    );
    assert_eq!(
        granted(&conn, grant_request("team", "owner"), Ok("t"), Some("r1"), "g2").unwrap_err(),
        invalid("unknown grant role \"owner\"")
    );
    assert_eq!(
        granted(&conn, reader(), Err(CoreError::NotFound), None, "g2").unwrap_err(),
        invalid("unknown grant user \"ada\"")
    );
    assert_eq!(
        granted(&conn, reader(), Ok("user-1"), None, "g2").unwrap_err(),
        CoreError::NotFound
    );
    assert_eq!(count(&conn, "grants"), 1);
    let stray = GrantTurn::Refuse(invalid("sqlite: unexpected answer to a grant"));
    match begin_grant(reader()) {
        GrantTurn::Ask(state, _) => assert_eq!(continue_grant(state, GrantEvent::Added), stray),
        other => panic!("{other:?}"),
    }
    let placing = GrantState::Placing(reader(), "user-1".to_owned());
    match continue_grant(placing, GrantEvent::Repository(Some("r1".to_owned()))) {
        GrantTurn::Ask(_, GrantAction::Add(grant)) => assert_eq!(grant.id.len(), 36),
        other => panic!("{other:?}"),
    }
}

fn failed(why: &str) -> ChangeEvent {
    ChangeEvent::Failed { error: invalid(why), text: format!("invalid argument: {why}") }
}

/// Makes a grant and records it, in one transaction; none of what fails is kept.
fn grant_and_record(conn: &mut rusqlite::Connection, id: &str) -> Result<(), CoreError> {
    let mut open = None;
    let mut turn = begin_change();
    loop {
        let (state, action) = match turn {
            ChangeTurn::Ask(state, action) => (state, action),
            ChangeTurn::Finish => return Ok(()),
            ChangeTurn::Undo(e) => return Err(e),
        };
        let event = match action {
            ChangeAction::Open => {
                open = Some(conn.unchecked_transaction().expect("begin"));
                ChangeEvent::Done
            }
            ChangeAction::Change => {
                let tx = open.as_ref().expect("open");
                let req = grant_request("user", "reader");
                match granted(tx, req, Ok("user-1"), Some("r1"), id) {
                    Ok(grant) => {
                        let entry =
                            grant_added("ops", &grant.id, "user", "ada", "alpha", "reader");
                        ChangeEvent::Changed(Some(entry))
                    }
                    Err(e) => ChangeEvent::Failed { error: e, text: String::new() },
                }
            }
            ChangeAction::Record(entry) => {
                let tx = open.as_ref().expect("open");
                let values = [entry.id, entry.actor, entry.action, entry.object_id];
                match tx.execute("INSERT INTO admin_audit VALUES(?1, ?2, ?3, ?4)", values) {
                    Ok(_) => ChangeEvent::Done,
                    Err(_) => failed("sqlite: no audit"),
                }
            }
            ChangeAction::Commit => {
                open.take().expect("open").commit().expect("commit");
                ChangeEvent::Done
            }
        };
        turn = continue_change(state, event);
    }
}

#[test]
fn a_grant_is_made_with_its_record_or_not_at_all() {
    let mut conn = grants_database();
    assert_eq!(grant_and_record(&mut conn, "g1"), Ok(()));
    assert_eq!((count(&conn, "grants"), count(&conn, "admin_audit")), (1, 1));
    assert_eq!(grant_and_record(&mut conn, "g2").unwrap_err(), invalid("sqlite: taken"));
    assert_eq!((count(&conn, "grants"), count(&conn, "admin_audit")), (1, 1));
    conn.execute_batch("DELETE FROM grants; DROP TABLE admin_audit;").expect("drop");
    assert_eq!(
        grant_and_record(&mut conn, "g3").unwrap_err(),
        CoreError::AdminAuditFailed("invalid argument: sqlite: no audit".to_owned())
    );
    assert_eq!(count(&conn, "grants"), 0);
}

#[test]
fn a_change_is_told_of_by_what_failed() {
    let undo = |state: ChangeState, why: &str| continue_change(state, failed(why));
    for state in [ChangeState::Opening, ChangeState::Changing, ChangeState::Committing] {
        assert_eq!(undo(state, "busy"), ChangeTurn::Undo(invalid("busy")));
    }
    assert_eq!(
        undo(ChangeState::Recording, "busy"),
        ChangeTurn::Undo(admin_audit_failed("invalid argument: busy"))
    );
    assert_eq!(
        continue_change(ChangeState::Changing, ChangeEvent::Changed(None)),
        ChangeTurn::Ask(ChangeState::Committing, ChangeAction::Commit)
    );
    assert_eq!(
        continue_change(ChangeState::Changing, ChangeEvent::Done),
        ChangeTurn::Undo(invalid("sqlite: unexpected answer to a change"))
    );
}

fn store(conn: &rusqlite::Connection, resource: Resource, id: &str) -> Result<(), CoreError> {
    let mut turn = begin_upsert(resource);
    loop {
        let (state, action) = match turn {
            UpsertTurn::Ask(state, action) => (state, action),
            UpsertTurn::Finish => return Ok(()),
            UpsertTurn::Refuse(e) => return Err(e),
        };
        let changed = match action {
            UpsertAction::Find(x) => {
                let found = conn
                    .query_row(
                        "SELECT id, name, remote_url, lore, status, source FROM r WHERE lore = ?1",
                        [x],
                        |row| {
                            Ok(ResourceWithSource {
                                resource: resource_from_row(
                                    row.get(0)?,
                                    row.get(1)?,
                                    row.get(2)?,
                                    row.get(3)?,
                                    row.get(4)?,
                                ),
                                created_by_source: row.get(5)?,
                            })
                        },
                    )
                    .ok();
                turn = continue_upsert(state, UpsertEvent::Found(found));
                continue;
            }
            UpsertAction::Update { id, name, remote_url } => conn.execute(
                "UPDATE r SET name = ?1, remote_url = ?2, status = 'active'
                 WHERE id = ?3 AND source = 'manual'",
                [name, remote_url, id],
            ),
            UpsertAction::Reactivate(x) => {
                conn.execute("UPDATE r SET status = 'active' WHERE lore = ?1", [x])
            }
            UpsertAction::Insert { lore_repository_id, name, remote_url, source } => conn.execute(
                "INSERT INTO r VALUES (?1, ?2, ?3, ?4, 'active', ?5)",
                [id, &name, &remote_url, &lore_repository_id, source],
            ),
        };
        turn = continue_upsert(state, UpsertEvent::Changed(changed.unwrap()));
    }
}

#[test]
fn a_stored_repository_has_one_active_row() {
    let conn = rusqlite::Connection::open_in_memory().unwrap();
    conn.execute_batch(
        "CREATE TABLE r (id TEXT PRIMARY KEY, name TEXT UNIQUE, remote_url TEXT,
                         lore TEXT UNIQUE, status TEXT, source TEXT)",
    )
    .unwrap();
    let resource = |name: &str, remote_url: &str| Resource {
        name: name.to_owned(),
        resource_id: "urc-alpha".to_owned(),
        remote_url: remote_url.to_owned(),
        ..Default::default()
    };
    let rows = || -> Vec<Vec<String>> {
        let mut stmt = conn.prepare("SELECT * FROM r").unwrap();
        let found = stmt
            .query_map([], |row| (0..6).map(|i| row.get(i)).collect())
            .unwrap();
        found.map(|row| row.unwrap()).collect()
    };
    store(&conn, resource(" ", ""), "r1").unwrap();
    assert_eq!(
        rows(),
        vec![vec!["r1", "alpha", "", "alpha", "active", "rebac_create_resource"]]
    );
    conn.execute("UPDATE r SET status = 'deleted'", []).unwrap();
    store(&conn, resource("other", ""), "r2").unwrap();
    assert_eq!(
        rows(),
        vec![vec!["r1", "alpha", "", "alpha", "active", "rebac_create_resource"]]
    );
    assert_eq!(
        store(&conn, resource("other", "lore://h/alpha"), "r3").unwrap_err(),
        invalid("repository alpha is managed by rebac_create_resource")
    );
    conn.execute("DELETE FROM r", []).unwrap();
    store(&conn, resource("Alpha", "lore://h/alpha"), "r4").unwrap();
    assert_eq!(rows(), vec![vec!["r4", "Alpha", "lore://h/alpha", "alpha", "active", "manual"]]);
    conn.execute("UPDATE r SET status = 'deleted'", []).unwrap();
    store(&conn, resource("New", "lore://i/alpha"), "r5").unwrap();
    assert_eq!(rows(), vec![vec!["r4", "New", "lore://i/alpha", "alpha", "active", "manual"]]);
}
