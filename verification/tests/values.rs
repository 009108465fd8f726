use lore_auth_adapters::accounts::{
    allows_verified_email_invitation_binding, effective_limit, external_identity_key,
    principal_from_user,
};
use lore_auth_adapters::audit::{admin_audit_entry, admin_audit_entry_at, gone_grant, grant_detail};
use lore_auth_adapters::device::UuidDeviceCodeGenerator;
use lore_auth_adapters::email::{
    email_domain, email_domain_allowed, normalize_email, validated_account_email,
};
use lore_auth_adapters::encoding::{bytes_of, hash_code, hash_secret};
use lore_auth_adapters::error::CoreError;
use lore_auth_adapters::ids::{ensure_jti, random_secret, random_user_code, user_code_from};
use lore_auth_adapters::json::{array_text, number_text, quote_all};
use lore_auth_adapters::model::{ExternalIdentity, LoginTrustPolicy, User};
use lore_auth_adapters::nesting::GroupEdge;
use lore_auth_adapters::order::{not_after, sort};
use lore_auth_adapters::permissions::PermissionSet;
use lore_auth_adapters::repositories::resource_id_from_resource;
use lore_auth_adapters::resource_id::{normalize_valid_lore_repository_id, ResourceID};
use lore_auth_adapters::roles::{is_known_role, role_allows, role_permissions, Permission, Role};
use lore_auth_adapters::table::Table;
use lore_auth_adapters::text::{
    behind_first, behind_last, contains_text, decimal_text, drop_text, join, same_ignoring_case, split,
    strip_prefix, strip_suffix,
};
use lore_auth_adapters::time::{
    later, now_unix, seconds_or_default, ttl_seconds, unix_of, unix_or_now, Moment, Span,
};
use lore_auth_adapters::walk::{describe, is_inside, reached_groups, walk};

fn texts(values: &[&str]) -> Vec<String> {
    values.iter().map(|v| (*v).to_owned()).collect()
}

fn is_hex(s: &str) -> bool {
    s.chars().all(|c| c.is_ascii_digit() || ('a'..='f').contains(&c))
}

#[test]
fn secrets_are_stored_as_hex_sha256_of_the_trimmed_text() {
    assert_eq!(
        hash_secret("abc"),
        "ba7816bf8f01cfea414140de5dae2223b00361a396177a9cb410ff61f20015ad"
    );
    assert_eq!(hash_secret("  abc\n"), hash_secret("abc"));
    assert_ne!(hash_secret("ABC"), hash_secret("abc"));
}

#[test]
fn codes_are_found_again_in_either_case() {
    assert_eq!(hash_code(" abcd-ef01 "), hash_code("ABCD-EF01"));
    assert_eq!(hash_code("abc"), hash_secret("ABC"));
    assert_ne!(hash_code("abcd"), hash_code("abce"));
}

#[test]
fn random_secrets_have_sixty_four_digits_and_differ() {
    let a = random_secret();
    let b = random_secret();
    assert_eq!(a.len(), 64);
    assert!(is_hex(&a));
    assert_ne!(a, b);
}

#[test]
fn token_identifiers_are_kept_or_made_up() {
    assert_eq!(ensure_jti("jti-1".to_owned()), "jti-1");
    let made = ensure_jti(String::new());
    assert_eq!(made.len(), 36);
    assert_eq!(made.matches('-').count(), 4);
}

#[test]
fn user_codes_have_two_groups_of_four() {
    assert_eq!(user_code_from("0123456789abcdef0123456789abcdef"), "0123-4567");
    assert_eq!(user_code_from("abcdef9876543210abcdef9876543210"), "ABCD-EF98");
    let code = random_user_code();
    assert_eq!(code.len(), 9);
    assert_eq!(&code[4..5], "-");
    assert_eq!(code, code.to_ascii_uppercase());
}

#[test]
fn device_codes_and_user_codes_are_generated() {
    let generator = UuidDeviceCodeGenerator;
    let device = generator.device_code().expect("device code");
    assert_eq!(device.len(), 64);
    assert!(is_hex(&device));
    assert_eq!(generator.user_code().expect("user code").len(), 9);
}

#[test]
fn addresses_are_trimmed_and_lower_case() {
    assert_eq!(normalize_email("  Ada@Example.COM "), "ada@example.com");
    assert_eq!(validated_account_email(" Ada@Example.COM ").unwrap(), "Ada@Example.COM");
    let message = "email must contain '@' and no whitespace".to_owned();
    assert_eq!(
        validated_account_email("ada").unwrap_err(),
        CoreError::InvalidArgument(message.clone())
    );
    assert_eq!(
        validated_account_email("a da@example.com").unwrap_err(),
        CoreError::InvalidArgument(message)
    );
}

#[test]
fn domains_are_compared_behind_the_last_at_sign() {
    assert_eq!(email_domain("a@b@Example.com"), Some("example.com".to_owned()));
    assert_eq!(email_domain("ada"), None);
    assert_eq!(email_domain("ada@"), None);
    assert!(email_domain_allowed("ada@example.com", &texts(&[])));
    assert!(email_domain_allowed("ada@example.com", &texts(&["other.org", " EXAMPLE.com "])));
    assert!(!email_domain_allowed("ada@example.com", &texts(&["other.org"])));
    assert!(!email_domain_allowed("ada", &texts(&["other.org"])));
}

#[test]
fn resources_stand_for_repositories() {
    assert_eq!(ResourceID::for_repository_id("repo"), Some("urc-repo".to_owned()));
    assert_eq!(ResourceID::for_repository_id("urc-repo"), Some("urc-repo".to_owned()));
    assert_eq!(ResourceID::for_repository_id("  "), None);
    assert_eq!(ResourceID::repository_id_from_resource_id("urc-repo"), "repo");
    assert_eq!(ResourceID::repository_id_from_resource_id("repo"), "repo");
}

#[test]
fn repository_identifiers_have_few_characters() {
    assert_eq!(normalize_valid_lore_repository_id(" a-B_9 "), Some("a-B_9".to_owned()));
    assert_eq!(normalize_valid_lore_repository_id(""), None);
    assert_eq!(normalize_valid_lore_repository_id("a/b"), None);
    assert!(normalize_valid_lore_repository_id(&"x".repeat(128)).is_some());
    assert!(normalize_valid_lore_repository_id(&"x".repeat(129)).is_none());
}

#[test]
fn the_resource_that_is_meant_comes_before_the_repository() {
    let resource = |resource_id: &str, lore_repository_id: &str| {
        lore_auth_adapters::model::Resource {
            resource_id: resource_id.to_owned(),
            lore_repository_id: lore_repository_id.to_owned(),
            ..Default::default()
        }
    };
    assert_eq!(resource_id_from_resource(&resource("urc-a", "b")).unwrap(), "urc-a");
    assert_eq!(resource_id_from_resource(&resource("  ", "b")).unwrap(), "urc-b");
    assert_eq!(
        resource_id_from_resource(&resource("", "urc-")).unwrap_err(),
        CoreError::InvalidArgument("resource_id is required".to_owned())
    );
    assert_eq!(
        resource_id_from_resource(&resource("", "no spaces")).unwrap_err(),
        CoreError::InvalidArgument(
            "lore_repository_id must be 1-128 characters of A-Z, a-z, 0-9, '-' or '_'".to_owned()
        )
    );
}

#[test]
fn roles_permit_what_lesser_roles_permit() {
    assert!(role_allows("reader", "read"));
    assert!(!role_allows("reader", "write"));
    assert!(role_allows("writer", "read"));
    assert!(role_allows("writer", "write"));
    assert!(!role_allows("writer", "admin"));
    assert!(role_allows("admin", "admin"));
    assert!(!role_allows("owner", "read"));
    assert!(is_known_role("reader") && !is_known_role("owner"));
    assert_eq!(
        role_permissions("writer"),
        Some(vec![Permission::Read, Permission::Write])
    );
    assert_eq!(role_permissions("owner"), None);
    assert_eq!(Role::from_name("admin"), Some(Role::Admin));
}

#[test]
fn permission_sets_list_the_least_first() {
    let mut set = PermissionSet::default();
    set.insert(Permission::Admin);
    set.insert(Permission::Read);
    set.insert(Permission::Read);
    assert_eq!(set.into_permissions(), vec![Permission::Read, Permission::Admin]);
}

#[test]
fn principals_show_the_name_or_the_address_or_the_identifier() {
    let mut user = User {
        id: "user-1".to_owned(),
        email: "ada@example.com".to_owned(),
        display_name: "Ada".to_owned(),
        status: "active".to_owned(),
        last_login_at: 0,
    };
    let principal = principal_from_user(&user, "google", texts(&["devs"]));
    assert_eq!(principal.display_name, "Ada");
    assert_eq!(principal.preferred_username, "ada@example.com");
    assert_eq!(principal.token_subject, "user-1");
    assert_eq!(principal.token_idp, "google");
    assert_eq!(principal.groups, texts(&["devs"]));
    user.display_name = String::new();
    assert_eq!(user.display(), "ada@example.com");
    user.email = String::new();
    assert_eq!(user.display(), "user-1");
}

#[test]
fn identity_keys_keep_their_parts_apart() {
    let identity = |provider: &str, issuer: &str, subject: &str| ExternalIdentity {
        provider_id: provider.to_owned(),
        issuer: issuer.to_owned(),
        subject: subject.to_owned(),
        ..Default::default()
    };
    assert_eq!(external_identity_key(&identity("p", "i", "s")), "p\0i\0s");
    assert_ne!(
        external_identity_key(&identity("p", "is", "s")),
        external_identity_key(&identity("pi", "s", "s"))
    );
}

#[test]
fn only_one_policy_binds_by_address() {
    let policy = |binding: &str| LoginTrustPolicy {
        email_binding: binding.to_owned(),
        ..Default::default()
    };
    assert!(allows_verified_email_invitation_binding(&policy(" verified_email_invitation ")));
    assert!(!allows_verified_email_invitation_binding(&policy("disabled")));
    assert!(!allows_verified_email_invitation_binding(&policy("")));
}

#[test]
fn listings_have_at_least_one_row() {
    assert_eq!(effective_limit(0), 1);
    assert_eq!(effective_limit(7), 7);
}

#[test]
fn audit_entries_hold_what_was_changed() {
    let entry = admin_audit_entry_at("ada", "a.b", "thing", "id-1", "d", "entry-1".to_owned(), 5);
    assert_eq!(entry.id, "entry-1");
    assert_eq!(entry.actor, "ada");
    assert_eq!(entry.action, "a.b");
    assert_eq!(entry.object_type, "thing");
    assert_eq!(entry.object_id, "id-1");
    assert_eq!(entry.detail, "d");
    assert_eq!(entry.created_at, 5);
    let entry = admin_audit_entry("ada", "a.b", "thing", "id-1", "d");
    assert_eq!(entry.id.len(), 36);
    assert!(entry.created_at > 1_600_000_000);
    assert_eq!(
        grant_detail("user", "u", "repo", "reader"),
        "subject_type=user subject_id=u repo=repo role=reader"
    );
    assert_eq!(gone_grant("user", "u", "repo", "reader"), "user:u:repo:reader");
}

#[test]
fn strings_are_taken_apart_and_put_together() {
    assert_eq!(split("a.b..c", '.'), texts(&["a", "b", "", "c"]));
    assert_eq!(split("", '.'), texts(&[""]));
    assert_eq!(join(&texts(&["a", "b", "c"]), ", "), "a, b, c");
    assert_eq!(join(&texts(&[]), ", "), "");
    assert_eq!(strip_prefix("Bearer x", "Bearer "), Some("x".to_owned()));
    assert_eq!(strip_prefix("x", "Bearer "), None);
    assert_eq!(strip_suffix("g#member", "#member"), Some("g".to_owned()));
    assert_eq!(strip_suffix("g", "#member"), None);
    assert_eq!(behind_last("a@b@c", '@'), Some("c".to_owned()));
    assert_eq!(behind_first("https://x://y", "://"), Some("x://y".to_owned()));
    assert!(contains_text("needle in hay", "in h"));
    assert!(same_ignoring_case("TRUE", "true"));
    assert_eq!(drop_text(&texts(&["a", "b", "a"]), "a"), texts(&["b"]));
}

#[test]
fn json_is_written_without_whitespace() {
    assert_eq!(number_text(0), "0");
    assert_eq!(number_text(-12), "-12");
    assert_eq!(number_text(i64::MIN), i64::MIN.to_string());
    assert_eq!(number_text(i64::MAX), i64::MAX.to_string());
    let values = quote_all(&texts(&["a", "say \"hi\"\n", "\u{e9}"]));
    assert_eq!(values, texts(&["\"a\"", "\"say \\\"hi\\\"\\n\"", "\"\u{e9}\""]));
    assert_eq!(array_text(&quote_all(&texts(&["a", "b"]))), "[\"a\",\"b\"]");
    assert_eq!(array_text(&texts(&[])), "[]");
    assert_eq!(bytes_of("h\u{e9}"), "h\u{e9}".as_bytes().to_vec());
}

#[test]
fn strings_are_sorted_by_code_point() {
    assert!(not_after("a", "b") && not_after("a", "a") && !not_after("b", "a"));
    assert!(not_after("a", "ab") && !not_after("ab", "a") && not_after("Z", "a"));
    assert_eq!(sort(texts(&["b", "a", "c", "a"])), texts(&["a", "a", "b", "c"]));
}

#[test]
fn tables_hold_each_key_once() {
    let mut table: Table<String, String> = Table::new();
    table.insert("a".to_owned(), "1".to_owned());
    table.insert("b".to_owned(), "2".to_owned());
    table.insert("a".to_owned(), "3".to_owned());
    assert_eq!(table.len(), 2);
    assert_eq!(table.get(&"a".to_owned()), Some(&"3".to_owned()));
    assert_eq!(table.remove(&"a".to_owned()), Some("3".to_owned()));
    assert!(!table.contains_key(&"a".to_owned()));
    assert_eq!(table.remove(&"a".to_owned()), None);
}

#[test]
fn times_are_capped_at_the_largest_number() {
    assert_eq!(ttl_seconds(Span { secs: 90, nanos: 999_999_999 }), 90);
    assert_eq!(ttl_seconds(Span { secs: u64::MAX, nanos: 0 }), i64::MAX);
    assert_eq!(seconds_or_default(Span { secs: 0, nanos: 0 }, 60), 60);
    assert_eq!(seconds_or_default(Span { secs: 0, nanos: 1 }, 60), 0);
    assert_eq!(later(10, 5), 15);
    assert_eq!(later(i64::MAX - 1, 5), i64::MAX);
    assert_eq!(unix_or_now(&Some(Moment::SinceEpoch(Span::from_secs(7)))), 7);
    assert_eq!(unix_or_now(&Some(Moment::BeforeEpoch("long ago".to_owned()))), 0);
    assert_eq!(unix_of(&Moment::SinceEpoch(Span { secs: 7, nanos: 999_999_999 })), 7);
    assert_eq!(unix_of(&Moment::SinceEpoch(Span::from_secs(u64::MAX))), i64::MAX);
    assert_eq!(unix_of(&Moment::BeforeEpoch("long ago".to_owned())), 0);
    assert!(now_unix() > 1_600_000_000);
    assert!(unix_or_now(&None) > 1_600_000_000);
}

fn edge(member: &str, parent: &str) -> GroupEdge {
    GroupEdge {
        member: member.to_owned(),
        parent: parent.to_owned(),
    }
}

#[test]
fn walks_find_every_group_over_the_fewest_steps() {
    let edges = vec![edge("a", "b"), edge("b", "c"), edge("a", "c"), edge("x", "y"), edge("c", "a")];
    let found = walk(&texts(&["a", "a"]), &edges);
    let ids: Vec<String> = found.iter().map(|v| v.id.clone()).collect();
    assert_eq!(ids, texts(&["a", "b", "c"]));
    assert_eq!(found[2].from, Some(0));
    let ways = describe(&found, &texts(&["A", "B", "C"]));
    assert_eq!(ways, texts(&["A", "A -> B", "A -> C"]));
    assert_eq!(reached_groups(&texts(&["b"]), &edges), texts(&["b", "c", "a"]));
    assert!(is_inside(&edges, "b", "a"));
    assert!(is_inside(&edges, "q", "q"));
    assert!(!is_inside(&edges, "a", "y"));
}

#[test]
fn numbers_are_written_in_decimal() {
    assert_eq!(decimal_text(0), "0");
    assert_eq!(decimal_text(9), "9");
    assert_eq!(decimal_text(10), "10");
    assert_eq!(decimal_text(4_096), "4096");
    assert_eq!(decimal_text(u64::MAX), "18446744073709551615");
}
