use lore_auth_adapters::error::CoreError;
use lore_auth_adapters::memory::Store;
use lore_auth_adapters::model::{
    AddInvitationInput, AddUserInput, AuthnTokenInput, AuthzTokenInput,
    CreateDeviceAuthorizationInput, ExternalIdentity, IssuedToken, LoginResolutionRequest,
    LoginStateInput,
    LoginTrustPolicy, Resource, ResourceFilter, ResourcePermission, User, UserListFilter,
    VerifyOptions,
};
use lore_auth_adapters::roles::Permission;
use lore_auth_adapters::time::{Moment, Span};

fn user(id: &str, email: &str) -> User {
    User {
        id: id.to_owned(),
        email: email.to_owned(),
        display_name: String::new(),
        status: "active".to_owned(),
        last_login_at: 0,
    }
}

fn repository(name: &str) -> Resource {
    Resource {
        id: String::new(),
        name: name.to_owned(),
        remote_url: String::new(),
        resource_id: String::new(),
        lore_repository_id: name.to_owned(),
        status: String::new(),
    }
}

fn invalid(message: &str) -> CoreError {
    CoreError::InvalidArgument(message.to_owned())
}

fn filter(prefix: &str) -> ResourceFilter {
    ResourceFilter {
        prefix: prefix.to_owned(),
    }
}

/// Ada is in `devs`, `devs` is in `staff`; there is a repository `alpha`.
fn seeded() -> Store {
    let mut store = Store::new();
    store.add_test_user(user("user-1", "ada@example.com"));
    store.add_test_user(user("user-2", "bob@example.com"));
    store
        .add_group_with_id("devs", "", "group-devs".to_owned())
        .unwrap();
    store
        .add_group_with_id("staff", "", "group-staff".to_owned())
        .unwrap();
    store.add_group_member("devs", "ada@example.com").unwrap();
    store.add_group_group("staff", "devs").unwrap();
    store
        .upsert_with_id(repository("alpha"), "repo-1".to_owned())
        .unwrap();
    store
}

#[test]
fn a_grant_to_a_user_gives_access_and_taking_it_back_ends_it() {
    let mut store = seeded();
    assert!(!store.can_access("user-1", "urc-alpha", "read").unwrap());
    store.add_grant("user", "ada@example.com", "alpha", "writer").unwrap();
    assert!(store.can_access("user-1", "urc-alpha", "read").unwrap());
    assert!(store.can_access("user-1", "urc-alpha", "write").unwrap());
    assert!(!store.can_access("user-1", "urc-alpha", "admin").unwrap());
    assert!(!store.can_access("user-2", "urc-alpha", "read").unwrap());
    store.remove_grant("user", "user-1", "alpha", "writer").unwrap();
    assert!(!store.can_access("user-1", "urc-alpha", "read").unwrap());
}

#[test]
fn a_grant_to_a_surrounding_group_gives_access_and_is_explained() {
    let mut store = seeded();
    store.add_grant("group", "staff", "alpha", "reader").unwrap();
    assert!(store.can_access("user-1", "urc-alpha", "read").unwrap());
    assert!(!store.can_access("user-2", "urc-alpha", "read").unwrap());
    let evidence = store
        .grants_for_user_on_repository("user-1", "urc-alpha", true)
        .unwrap();
    assert_eq!(evidence.len(), 1);
    assert_eq!(evidence[0].subject_id, "group-staff");
    assert_eq!(evidence[0].role, "reader");
    assert_eq!(evidence[0].path, "user:ada@example.com -> devs -> staff -> grant");
    let direct = store
        .grants_for_user_on_repository("user-1", "urc-alpha", false)
        .unwrap();
    assert!(direct.is_empty());
}

#[test]
fn accessible_resources_are_listed_with_their_permissions() {
    let mut store = seeded();
    store.upsert(repository("beta")).unwrap();
    store.add_grant("user", "user-1", "beta", "admin").unwrap();
    store.add_grant("group", "devs", "alpha", "reader").unwrap();
    assert_eq!(
        store.list_accessible("user-1", filter("")).unwrap(),
        vec![
            ResourcePermission {
                resource_id: "urc-alpha".to_owned(),
                permission: vec![Permission::Read],
            },
            ResourcePermission {
                resource_id: "urc-beta".to_owned(),
                permission: vec![Permission::Admin, Permission::Read, Permission::Write],
            },
        ]
    );
    let only = store.list_accessible("user-1", filter("urc-b")).unwrap();
    assert_eq!(only.len(), 1);
    assert_eq!(only[0].resource_id, "urc-beta");
}

#[test]
fn grants_are_refused_for_what_there_is_not() {
    let mut store = seeded();
    assert!(store.add_grant("user", "user-1", "alpha", "owner").is_err());
    assert!(store.add_grant("robot", "user-1", "alpha", "reader").is_err());
    assert!(store.add_grant("user", "nobody", "alpha", "reader").is_err());
    assert!(store.add_grant("user", "user-1", "gamma", "reader").is_err());
    assert!(store.remove_grant("user", "user-1", "gamma", "reader").is_err());
    store.remove_grant("user", "user-1", "alpha", "reader").unwrap();
    assert!(store.list_grants("").unwrap().is_empty());
}

#[test]
fn groups_never_contain_each_other() {
    let mut store = seeded();
    assert_eq!(
        store.add_group_group("devs", "staff").unwrap_err(),
        invalid("group nesting would create a cycle")
    );
    assert_eq!(
        store.add_group_group("devs", "devs").unwrap_err(),
        invalid("group cannot contain itself")
    );
    store.add_group_group("staff", "devs").unwrap();
    assert_eq!(store.list_group_groups("staff").unwrap().len(), 1);
    store.remove_group_group("staff", "devs").unwrap();
    assert!(store.list_group_groups("staff").unwrap().is_empty());
    store.add_group_group("devs", "staff").unwrap();
}

#[test]
fn removing_undoes_adding_a_member() {
    let mut store = seeded();
    store.add_group_member("staff", "user-2").unwrap();
    assert_eq!(store.list_group_members("staff").unwrap()[0].id, "user-2");
    store.remove_group_member("staff", "bob@example.com").unwrap();
    assert!(store.list_group_members("staff").unwrap().is_empty());
    store.remove_group_member("staff", "user-2").unwrap();
    assert_eq!(
        store.remove_group_member("staff", "nobody").unwrap_err(),
        CoreError::NotFound
    );
    assert_eq!(
        store.add_group_member("staff", "nobody").unwrap_err(),
        CoreError::NotFound
    );
}

#[test]
fn group_names_must_not_be_blank() {
    let mut store = Store::new();
    assert_eq!(
        store.add_group("  ", "").unwrap_err(),
        invalid("group name must not be empty")
    );
    let group = store.add_group(" devs ", "people").unwrap();
    assert_eq!(group.name, "devs");
    assert_eq!(group.id.len(), 36);
    assert_eq!(store.list_groups().unwrap().len(), 1);
}

fn login(email: &str) -> LoginResolutionRequest {
    LoginResolutionRequest {
        identity: ExternalIdentity {
            provider_id: "google".to_owned(),
            issuer: "https://issuer".to_owned(),
            subject: "sub-1".to_owned(),
            email: email.to_owned(),
            email_verified: true,
            display_name: "Ada".to_owned(),
            ..Default::default()
        },
        policy: LoginTrustPolicy {
            email_binding: "verified_email_invitation".to_owned(),
            allowed_email_domains: vec!["example.com".to_owned()],
            ..Default::default()
        },
    }
}

fn invite(store: &mut Store) {
    store
        .add_invitation_with_ids(
            AddInvitationInput {
                email: "ada@example.com".to_owned(),
                provider_id: "google".to_owned(),
                issuer: "https://issuer".to_owned(),
                ..Default::default()
            },
            "user-9".to_owned(),
            "invitation-1".to_owned(),
        )
        .unwrap();
}

#[test]
fn a_login_accepts_its_invitation_once_and_is_known_from_then_on() {
    let mut store = Store::new();
    invite(&mut store);
    let (principal, binding) = store
        .resolve_login_at(login("Ada@Example.com"), 100, "identity-1".to_owned())
        .unwrap();
    assert_eq!(binding.status, "bound_invitation");
    assert_eq!(binding.invitation_id, "invitation-1");
    assert_eq!(binding.external_identity_id, "identity-1");
    assert_eq!(principal.user_id, "user-9");
    let (again, binding) = store
        .resolve_login_at(login("Ada@Example.com"), 200, "identity-2".to_owned())
        .unwrap();
    assert_eq!(binding.status, "existing");
    assert_eq!(binding.external_identity_id, "identity-1");
    assert_eq!(again.user_id, "user-9");
}

#[test]
fn an_unknown_login_changes_nothing() {
    let mut store = Store::new();
    invite(&mut store);
    let mut unverified = login("ada@example.com");
    unverified.identity.email_verified = false;
    assert_eq!(
        store.resolve_login_at(unverified, 100, "i".to_owned()).unwrap_err(),
        CoreError::NotFound
    );
    let mut elsewhere = login("ada@example.com");
    elsewhere.policy.allowed_email_domains = vec!["other.org".to_owned()];
    assert_eq!(
        store.resolve_login_at(elsewhere, 100, "i".to_owned()).unwrap_err(),
        CoreError::NotFound
    );
    let mut strict = login("ada@example.com");
    strict.policy.email_binding = "disabled".to_owned();
    assert_eq!(
        store.resolve_login_at(strict, 100, "i".to_owned()).unwrap_err(),
        CoreError::NotFound
    );
    assert_eq!(store.user_by_id("user-9").unwrap().status, "pending");
    store.resolve_login(login("ada@example.com")).unwrap();
    assert_eq!(store.user_by_id("user-9").unwrap().status, "active");
}

#[test]
fn a_disabled_user_is_shut_out_until_enabled_again() {
    let mut store = seeded();
    assert!(store.principal_by_user_id("user-1").is_ok());
    store.disable_user("ada@example.com").unwrap();
    assert_eq!(
        store.principal_by_user_id("user-1").unwrap_err(),
        CoreError::PermissionDenied
    );
    store.enable_user("user-1").unwrap();
    assert_eq!(store.principal_by_user_id("user-1").unwrap().user_id, "user-1");
    assert_eq!(store.disable_user("nobody").unwrap_err(), CoreError::NotFound);
}

#[test]
fn users_are_found_by_a_part_of_their_address() {
    let store = seeded();
    let find = |query: &str, limit: usize| {
        store
            .list_users(UserListFilter {
                query: query.to_owned(),
                limit,
            })
            .unwrap()
    };
    assert_eq!(find("", 10).len(), 2);
    assert_eq!(find(" BOB@ ", 10)[0].id, "user-2");
    assert_eq!(find("", 1)[0].id, "user-1");
    assert_eq!(find("", 0).len(), 1);
    assert!(find("zed", 10).is_empty());
}

#[test]
fn new_users_need_an_address() {
    let mut store = Store::new();
    let added = store
        .add_user(AddUserInput {
            email: " ada@example.com ".to_owned(),
            display_name: "Ada".to_owned(),
            ..Default::default()
        })
        .unwrap();
    assert_eq!(added.email, "ada@example.com");
    assert_eq!(added.status, "active");
    assert!(store
        .add_user(AddUserInput {
            email: "ada".to_owned(),
            ..Default::default()
        })
        .is_err());
    assert_eq!(
        store
            .add_invitation(AddInvitationInput {
                email: "eve@example.com".to_owned(),
                ..Default::default()
            })
            .unwrap_err(),
        invalid("provider_id, issuer, and email are required")
    );
}

#[test]
fn repositories_are_read_back_by_any_of_their_names() {
    let mut store = seeded();
    assert_eq!(store.get_by_id("repo-1").unwrap().name, "alpha");
    assert_eq!(store.get_by_resource_id("urc-alpha").unwrap().id, "repo-1");
    assert_eq!(store.get_by_name("alpha").unwrap().resource_id, "urc-alpha");
    assert_eq!(store.list().unwrap().len(), 1);
    assert!(store.upsert(repository("no spaces")).is_err());
    store.delete("urc-alpha").unwrap();
    assert_eq!(store.get_by_name("alpha").unwrap_err(), CoreError::NotFound);
    assert_eq!(store.delete("urc-other").unwrap_err(), CoreError::NotFound);
}

#[test]
fn an_auth_session_goes_forward_only() {
    let mut store = seeded();
    let (code, session) = store
        .create_auth_session_at(
            "client-state",
            Span::from_secs(60),
            1_000,
            "code-1".to_owned(),
            "session-1".to_owned(),
            "nonce-1".to_owned(),
        )
        .unwrap();
    assert_eq!(code, "code-1");
    assert_eq!(session.expires_at, 1_060);
    assert!(store.match_client_state(&session, " client-state "));
    assert!(!store.match_client_state(&session, "other"));
    assert_eq!(store.get_auth_session_by_code_at("code-1", 1_059).unwrap().id, "session-1");
    assert_eq!(store.get_auth_session_by_nonce_at("nonce-1", 1_059).unwrap().id, "session-1");
    assert_eq!(
        store.get_auth_session_by_code_at("code-1", 1_060).unwrap_err(),
        CoreError::AuthSessionNotFound
    );
    assert_eq!(
        store.consume_auth_session_at("session-1", 1_001).unwrap_err(),
        CoreError::AuthSessionNotFound
    );
    store.complete_auth_session_at("session-1", "user-1", 1_001).unwrap();
    assert_eq!(
        store.complete_auth_session_at("session-1", "user-1", 1_002).unwrap_err(),
        CoreError::AuthSessionNotFound
    );
    store.consume_auth_session_at("session-1", 1_003).unwrap();
    assert_eq!(
        store.consume_auth_session_at("session-1", 1_004).unwrap_err(),
        CoreError::AuthSessionNotFound
    );
}

#[test]
fn login_state_is_given_back_once() {
    let mut store = Store::new();
    let input = LoginStateInput {
        provider_id: "google".to_owned(),
        nonce: "n".to_owned(),
        login_url_nonce: "l".to_owned(),
        return_path: "/".to_owned(),
        private_state: vec![1],
    };
    let (state, _) = store
        .create_login_state_at(input, Span::from_secs(60), 1_000, "secret".to_owned(), "id-1".to_owned())
        .unwrap();
    store
        .set_login_state_private_state_at(&state, vec![2, 3], 1_001)
        .unwrap();
    let got = store.consume_login_state_at("secret", 1_002).unwrap();
    assert_eq!(got.private_state, vec![2, 3]);
    assert_eq!(got.provider_id, "google");
    assert_eq!(
        store.consume_login_state_at("secret", 1_003).unwrap_err(),
        CoreError::NotFound
    );
    assert_eq!(
        store.consume_login_state("never").unwrap_err(),
        CoreError::NotFound
    );
}

#[test]
fn a_csrf_token_is_good_once_and_for_its_session() {
    let mut store = seeded();
    let session = store
        .create_browser_session("user-1", Span::from_secs(3_600))
        .unwrap();
    assert_eq!(store.user_by_browser_session(&session.id).unwrap().id, "user-1");
    let token = store
        .create_csrf_token_at(&session.id, Span::from_secs(60), 1_000, "token-1".to_owned())
        .unwrap();
    assert_eq!(
        store.consume_csrf_token_at("other", &token, 1_001).unwrap_err(),
        CoreError::NotFound
    );
    store.consume_csrf_token_at(&session.id, &token, 1_001).unwrap();
    assert_eq!(
        store.consume_csrf_token_at(&session.id, &token, 1_002).unwrap_err(),
        CoreError::NotFound
    );
    store.revoke_browser_session(&session.id).unwrap();
    assert_eq!(
        store.user_by_browser_session(&session.id).unwrap_err(),
        CoreError::NotFound
    );
}

#[test]
fn a_device_goes_from_pending_to_approved_to_consumed() {
    let mut store = seeded();
    let input = |repository: &str| CreateDeviceAuthorizationInput {
        device_code: "device-code".to_owned(),
        user_code: "ABCD-1234".to_owned(),
        requested_remote_url: "lore://host/alpha".to_owned(),
        requested_repository_id: repository.to_owned(),
        ttl: Span::from_secs(60),
    };
    assert_eq!(
        store
            .create_device_authorization_at(input(" "), 1_000, "device-0".to_owned())
            .unwrap_err(),
        invalid("device_code, user_code, and requested_repository_id are required")
    );
    let device = store
        .create_device_authorization_at(input("alpha"), 1_000, "device-1".to_owned())
        .unwrap();
    assert_eq!(device.status, "pending");
    assert_eq!(device.expires_at, 1_060);
    assert_eq!(store.device_by_user_code(" abcd-1234 ").unwrap().id, "device-1");
    assert_eq!(store.device_by_device_code("device-code").unwrap().id, "device-1");
    assert!(store.consume_device_authorization_at("device-1", 1_001).is_err());
    store.approve_device_authorization_at("device-1", "user-1", 1_001).unwrap();
    assert!(store.approve_device_authorization_at("device-1", "user-1", 1_002).is_err());
    store.consume_device_authorization_at("device-1", 1_003).unwrap();
    let device = store.device_by_user_code("ABCD-1234").unwrap();
    assert_eq!(device.status, "consumed");
    assert_eq!(device.approved_user_id, "user-1");
    assert_eq!(device.approved_at, 1_001);
    assert_eq!(device.consumed_at, 1_003);
    assert_eq!(store.device_by_user_code("none").unwrap_err(), CoreError::NotFound);
}

fn authn_input() -> AuthnTokenInput {
    AuthnTokenInput {
        issuer: "https://bridge".to_owned(),
        audience: vec!["lore".to_owned()],
        subject: "user-1".to_owned(),
        name: "Ada".to_owned(),
        preferred_username: "ada".to_owned(),
        groups: vec![],
        idp: "google".to_owned(),
        ttl: Span::from_secs(0),
        now: Some(Moment::SinceEpoch(Span::from_secs(1_000))),
        jti: String::new(),
    }
}

#[test]
fn a_token_that_was_signed_is_known_again() {
    let mut store = Store::new();
    let signed = store.sign_authn(authn_input()).unwrap();
    assert_eq!(signed.kid, "memory");
    assert_eq!(signed.issued_at, 1_000);
    assert_eq!(signed.expires_at, 4_600);
    assert!(signed.token.starts_with("authn:user-1:"));
    let bearer = format!("Bearer {}", signed.token);
    for compact in [signed.token.as_str(), bearer.as_str()] {
        let known = store
            .verify(compact, VerifyOptions { issuer: String::new(), audience: String::new() })
            .unwrap();
        assert_eq!(known.subject, "user-1");
        assert_eq!(known.jti, signed.jti);
        assert_eq!(known.expires_at, 4_600);
    }
    assert_eq!(
        store
            .verify("other", VerifyOptions { issuer: String::new(), audience: String::new() })
            .unwrap_err(),
        CoreError::Unauthenticated
    );
    assert_eq!(store.jwks().unwrap(), b"{\"keys\":[]}".to_vec());
    assert_eq!(store.generate_active_key("k", "", 0).unwrap_err(), CoreError::Unsupported);
}

#[test]
fn an_authorization_token_names_its_first_resource() {
    let store = Store::new();
    let base = authn_input();
    let signed = store
        .sign_authz_at(
            AuthzTokenInput {
                issuer: base.issuer,
                audience: base.audience,
                subject: base.subject,
                name: base.name,
                preferred_username: base.preferred_username,
                groups: base.groups,
                idp: base.idp,
                resources: vec![ResourcePermission {
                    resource_id: "urc-alpha".to_owned(),
                    permission: vec![Permission::Read],
                }],
                ttl: Span::from_secs(0),
                now: None,
                jti: String::new(),
            },
            "jti-1".to_owned(),
            1_000,
            "unique".to_owned(),
        )
        .unwrap();
    assert_eq!(signed.token, "authz:user-1:unique");
    assert_eq!(signed.lore_resource_id, "urc-alpha");
    assert_eq!(signed.permissions, vec![Permission::Read]);
    assert_eq!(signed.expires_at, 1_900);
}

#[test]
fn audited_changes_leave_a_record() {
    let mut audited = seeded().audited("root".to_owned());
    audited.add_grant("user", "user-1", "alpha", "reader").unwrap();
    audited.add_group("ops", "").unwrap();
    assert!(audited.add_group(" ", "").is_err());
    audited.disable_user("ada@example.com").unwrap();
    let entries = audited.into_inner().admin_audit_entries();
    let actions: Vec<&str> = entries.iter().map(|e| e.action.as_str()).collect();
    assert_eq!(actions, vec!["grant.add", "group.add", "user.disable"]);
    assert!(entries.iter().all(|e| e.actor == "root"));
    assert_eq!(
        entries[0].detail,
        "subject_type=user subject_id=user-1 repo=alpha role=reader"
    );
    assert_eq!(entries[2].object_id, "user-1");
    assert_eq!(entries[2].detail, "email=ada@example.com");
}

#[test]
fn a_device_that_expired_is_not_approved() {
    let mut store = seeded();
    store
        .create_device_authorization_at(
            CreateDeviceAuthorizationInput {
                device_code: "device-code".to_owned(),
                user_code: "ABCD-1234".to_owned(),
                requested_remote_url: String::new(),
                requested_repository_id: "alpha".to_owned(),
                ttl: Span::from_secs(60),
            },
            1_000,
            "device-1".to_owned(),
        )
        .unwrap();
    assert!(store.approve_device_authorization_at("device-1", "user-1", 1_060).is_err());
    store.expire_device_authorization("device-1").unwrap();
    assert_eq!(store.device_by_user_code("ABCD-1234").unwrap().status, "expired");
    assert!(store.approve_device_authorization_at("device-1", "user-1", 1_001).is_err());
}

#[test]
fn a_recorded_token_leads_to_its_user_while_it_lasts() {
    let mut store = seeded();
    store
        .record_issued_token(IssuedToken {
            jti: "jti-1".to_owned(),
            kind: "authn".to_owned(),
            user_id: "user-1".to_owned(),
            expires_at: 1_060,
            ..Default::default()
        })
        .unwrap();
    let principal = store.principal_by_authn_token_jti_at("jti-1", 1_059).unwrap();
    assert_eq!(principal.user_id, "user-1");
    assert_eq!(principal.token_idp, "bridge");
    assert_eq!(
        store.principal_by_authn_token_jti_at("jti-1", 1_060).unwrap_err(),
        CoreError::NotFound
    );
    assert_eq!(
        store.principal_by_authn_token_jti_at("jti-2", 1_000).unwrap_err(),
        CoreError::NotFound
    );
    store.disable_test_user("user-1");
    assert!(store.principal_by_authn_token_jti_at("jti-1", 1_059).is_err());
}

#[test]
fn what_tests_put_into_the_store_is_found() {
    let mut store = Store::new();
    store.add_test_user(user("user-1", "ada@example.com"));
    let resource = store.add_test_resource(repository("alpha"));
    assert_eq!(resource.resource_id, "urc-alpha");
    store.grant("user-1", "urc-alpha");
    assert!(store.can_access("user-1", "urc-alpha", "read").unwrap());
    store.grant_role("user-1", "urc-alpha", "admin");
    assert!(store.can_access("user-1", "urc-alpha", "admin").unwrap());
    let identity = store.add_test_external_identity(ExternalIdentity {
        user_id: "user-1".to_owned(),
        ..login("ada@example.com").identity
    });
    assert_eq!(identity.id.len(), 36);
    assert_eq!(identity.status, "active");
    let (principal, binding) = store.resolve_login(login("ada@example.com")).unwrap();
    assert_eq!(principal.user_id, "user-1");
    assert_eq!(binding.status, "existing");
    assert_eq!(binding.external_identity_id, identity.id);
}

#[test]
fn a_recorded_removal_is_a_removal() {
    let rid = seeded().get_by_name("alpha").unwrap().resource_id;
    let mut plain = seeded();
    plain.delete(&rid).unwrap();
    let seeds = seeded();
    let entries = seeds.admin_audit_entries().len();
    let mut audited = seeds.audited("admin".to_owned());
    audited.delete(&rid).unwrap();
    assert_eq!(audited.delete(&rid), Err(CoreError::NotFound));
    assert_eq!(
        audited.delete(" "),
        Err(invalid("resource_id must not be empty"))
    );
    let recorded = audited.into_inner();
    assert_eq!(recorded.get_by_resource_id(&rid), Err(CoreError::NotFound));
    assert_eq!(plain.get_by_resource_id(&rid), Err(CoreError::NotFound));
    assert_eq!(recorded.get_by_name("alpha"), Err(CoreError::NotFound));
    let ids = |store: &Store| -> Vec<String> {
        store.list().unwrap().into_iter().map(|r| r.resource_id).collect()
    };
    assert_eq!(ids(&recorded), ids(&plain));
    let log = recorded.admin_audit_entries();
    assert_eq!(log.len(), entries + 1);
    let last = &log[log.len() - 1];
    assert_eq!(last.actor, "admin");
    assert_eq!(last.action, "repository.disable");
    assert_eq!(last.object_id, rid);
}
