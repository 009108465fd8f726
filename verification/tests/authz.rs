use lore_auth_adapters::authz::asking::{
    begin_access, continue_access, AccessAction, AccessEvent, AccessRequest, AccessState,
    AccessTurn,
};
use lore_auth_adapters::authz::checks::{
    action_relations, check_allowed, check_any_relation, next_access_step, next_permission_step,
    permissions_from_relations, push_accessible, AccessStep, CheckOutcome, PermissionStep,
};
use lore_auth_adapters::authz::gather::{
    accessible_resources, candidate_resource_ids, roles_allow, unknown_role_error, RoleRow,
};
use lore_auth_adapters::authz::query::{
    grant_query, nested_member_query, user_member_query, Query,
};
use lore_auth_adapters::authz::snapshot::{
    grant_tuples_from_rows, member_tuples_from_rows, reachable_group_ids_from_tuples,
    repository_tuples, validate_snapshot_can_access_roles, GrantRow, MemberRow, USER_GROUPS_SQL,
    USER_GROUP_NESTING_SQL,
};
use lore_auth_adapters::authz::{SnapshotTupleReader, Tuple, TupleFilter};
use lore_auth_adapters::error::CoreError;
use lore_auth_adapters::model::ResourcePermission;
use lore_auth_adapters::roles::Permission;
use tokio_rusqlite::rusqlite;

fn tuple(
    object_type: &str,
    object_id: &str,
    relation: &str,
    subject_type: &str,
    subject_id: &str,
) -> Tuple {
    Tuple {
        object_type: object_type.to_owned(),
        object_id: object_id.to_owned(),
        relation: relation.to_owned(),
        subject_type: subject_type.to_owned(),
        subject_id: subject_id.to_owned(),
    }
}

#[test]
fn snapshot_tuple_reader_filters_in_memory_tuples() {
    let reader = SnapshotTupleReader::new(vec![
        tuple("resource", "urc-repo", "reader", "user", "user-1"),
        tuple("resource", "urc-repo", "writer", "group", "group-1#member"),
        tuple("group", "group-1", "member", "user", "user-1"),
    ]);

    let got = reader.read_tuples(&TupleFilter {
        object_type: Some("resource".to_owned()),
        object_id: Some("urc-repo".to_owned()),
        relation: Some("writer".to_owned()),
        subject_type: Some("group".to_owned()),
        subject_id: Some("group-1#member".to_owned()),
    });
    assert_eq!(got.len(), 1);
    assert_eq!(got[0].relation, "writer");

    let malformed_group_filter = reader.read_tuples(&TupleFilter {
        object_type: Some("resource".to_owned()),
        object_id: Some("urc-repo".to_owned()),
        relation: Some("writer".to_owned()),
        subject_type: Some("group".to_owned()),
        subject_id: Some("group-1".to_owned()),
    });
    assert!(malformed_group_filter.is_empty());
}

fn member_rows(conn: &rusqlite::Connection, sql: &str, user_id: &str) -> Vec<MemberRow> {
    let mut statement = conn.prepare(sql).expect("prepare query");
    let rows = statement
        .query_map([user_id], |row| {
            Ok(MemberRow {
                group_id: row.get(0)?,
                member_id: row.get(1)?,
            })
        })
        .expect("run query");
    rows.map(|row| row.expect("read row")).collect()
}

#[test]
fn user_scoped_group_snapshot_loads_only_upward_closure_edges() {
    let conn = rusqlite::Connection::open_in_memory().expect("open sqlite");
    conn.execute_batch(
        "
        CREATE TABLE group_members (
          group_id TEXT NOT NULL,
          user_id TEXT NOT NULL
        );
        CREATE TABLE group_groups (
          group_id TEXT NOT NULL,
          member_group_id TEXT NOT NULL
        );
        INSERT INTO group_members (group_id, user_id) VALUES
          ('group-leaf', 'user-1'),
          ('group-noise-child', 'user-2');
        INSERT INTO group_groups (group_id, member_group_id) VALUES
          ('group-mid', 'group-leaf'),
          ('group-top', 'group-mid'),
          ('group-noise-parent', 'group-noise-child');
        ",
    )
    .expect("seed group graph");

    let users = member_rows(&conn, USER_GROUPS_SQL, "user-1");
    let groups = member_rows(&conn, USER_GROUP_NESTING_SQL, "user-1");
    let tuples = member_tuples_from_rows(&users, &groups);

    assert_eq!(
        tuples,
        vec![
            tuple("group", "group-leaf", "member", "user", "user-1"),
            tuple("group", "group-mid", "member", "group", "group-leaf#member"),
            tuple("group", "group-top", "member", "group", "group-mid#member"),
        ]
    );
}

fn filter(
    object_type: Option<&str>,
    object_id: Option<&str>,
    relation: Option<&str>,
    subject_type: Option<&str>,
    subject_id: Option<&str>,
) -> TupleFilter {
    let own = |v: Option<&str>| v.map(|s| s.to_owned());
    TupleFilter {
        object_type: own(object_type),
        object_id: own(object_id),
        relation: own(relation),
        subject_type: own(subject_type),
        subject_id: own(subject_id),
    }
}

/// Ada (user-1) is in devs, devs in staff; staff may read alpha, Ada may write
/// beta, and bob is in devs too.
fn database() -> rusqlite::Connection {
    let conn = rusqlite::Connection::open_in_memory().expect("open");
    conn.execute_batch(
        "CREATE TABLE repositories(id TEXT, lore_repository_id TEXT, name TEXT, status TEXT);
         CREATE TABLE grants(id TEXT, subject_type TEXT, subject_id TEXT, repository_id TEXT, role TEXT);
         CREATE TABLE group_members(group_id TEXT, user_id TEXT);
         CREATE TABLE group_groups(group_id TEXT, member_group_id TEXT);
         INSERT INTO repositories VALUES('r1', 'alpha', 'alpha', 'active'), ('r2', 'beta', 'beta', 'active');
         INSERT INTO grants VALUES('g1', 'group', 'staff', 'r1', 'reader'), ('g2', 'user', 'user-1', 'r2', 'writer');
         INSERT INTO group_members VALUES('devs', 'user-1'), ('devs', 'bob');
         INSERT INTO group_groups VALUES('staff', 'devs');",
    )
    .expect("fill");
    conn
}

fn run(conn: &rusqlite::Connection, query: &Query) -> Vec<Vec<Option<String>>> {
    let mut statement = conn.prepare(&query.sql).expect("prepare");
    let columns = statement.column_count();
    let rows = statement
        .query_map(rusqlite::params_from_iter(query.values.iter()), |row| {
            (0..columns).map(|i| row.get(i)).collect()
        })
        .expect("query");
    rows.map(|row| row.expect("row")).collect()
}

#[test]
fn queries_find_the_tuples_that_the_filter_takes() {
    let conn = database();
    let grants = |f: &TupleFilter| -> Option<Vec<Tuple>> {
        let query = grant_query(f)?;
        let rows = run(&conn, &query)
            .into_iter()
            .map(|row| GrantRow {
                repository_id: row[0].clone().unwrap(),
                role: row[1].clone(),
                subject_type: row[2].clone(),
                subject_id: row[3].clone(),
            })
            .collect();
        Some(grant_tuples_from_rows(rows))
    };
    let all = grants(&filter(None, None, None, None, None)).unwrap();
    assert_eq!(
        all,
        vec![
            tuple("resource", "urc-alpha", "reader", "group", "staff#member"),
            tuple("resource", "urc-beta", "writer", "user", "user-1"),
        ]
    );
    let cases = vec![
        filter(None, Some("urc-alpha"), None, None, None),
        filter(Some("resource"), None, Some("writer"), None, None),
        filter(None, None, None, Some("user"), None),
        filter(None, None, None, None, Some("staff#member")),
        filter(None, None, None, Some("group"), Some("staff#member")),
        filter(None, None, None, Some("group"), Some("staff")),
        filter(None, None, None, Some("robot"), None),
        filter(Some("group"), None, None, None, None),
    ];
    for f in cases {
        let wanted: Vec<Tuple> = SnapshotTupleReader::new(grants(&filter(None, None, None, None, None)).unwrap())
            .filtered_tuples(&f);
        let found = SnapshotTupleReader::new(grants(&f).unwrap_or_default()).filtered_tuples(&f);
        assert_eq!(found, wanted);
    }
}

#[test]
fn member_queries_find_users_and_groups() {
    let conn = database();
    let users = user_member_query(&filter(Some("group"), None, None, Some("user"), Some("user-1"))).unwrap();
    assert_eq!(
        run(&conn, &users),
        vec![vec![Some("devs".to_owned()), Some("user-1".to_owned())]]
    );
    let nested =
        nested_member_query(&filter(Some("group"), Some("staff"), Some("member"), None, None)).unwrap();
    assert_eq!(
        run(&conn, &nested),
        vec![vec![Some("staff".to_owned()), Some("devs".to_owned())]]
    );
    assert!(user_member_query(&filter(Some("resource"), None, None, None, None)).is_none());
    assert!(nested_member_query(&filter(None, None, Some("reader"), None, None)).is_none());
}

#[test]
fn a_snapshot_reaches_what_the_user_is_in() {
    let conn = database();
    let users = member_rows(&conn, USER_GROUPS_SQL, "user-1");
    let groups = member_rows(&conn, USER_GROUP_NESTING_SQL, "user-1");
    let mut tuples = member_tuples_from_rows(&users, &groups);
    assert_eq!(
        reachable_group_ids_from_tuples(&tuples, "user-1"),
        vec!["devs".to_owned(), "staff".to_owned()]
    );
    assert!(reachable_group_ids_from_tuples(&tuples, "eve").is_empty());
    tuples.push(tuple("resource", "urc-alpha", "owner", "group", "staff#member"));
    assert_eq!(
        validate_snapshot_can_access_roles(&tuples, "user-1", "read").unwrap_err(),
        unknown_role_error("owner")
    );
    assert!(validate_snapshot_can_access_roles(&tuples, "eve", "read").is_ok());
}

#[test]
fn rows_without_a_repository_or_a_role_are_told_apart() {
    let row = |role: Option<&str>| GrantRow {
        repository_id: "alpha".to_owned(),
        role: role.map(|r| r.to_owned()),
        subject_type: role.map(|_| "user".to_owned()),
        subject_id: role.map(|_| "user-1".to_owned()),
    };
    assert_eq!(repository_tuples(vec![]).unwrap_err(), CoreError::NotFound);
    assert_eq!(repository_tuples(vec![row(None)]).unwrap(), vec![]);
    assert_eq!(
        repository_tuples(vec![row(Some("reader"))]).unwrap(),
        vec![tuple("resource", "urc-alpha", "reader", "user", "user-1")]
    );
}

fn role_row(repository: &str, role: &str) -> RoleRow {
    RoleRow {
        repository_id: repository.to_owned(),
        role: role.to_owned(),
    }
}

#[test]
fn rows_become_resources_with_permissions() {
    let rows = vec![
        role_row("alpha", "reader"),
        role_row("alpha", "writer"),
        role_row("beta", "reader"),
    ];
    assert_eq!(
        accessible_resources(&rows, "urc-a").unwrap(),
        vec![ResourcePermission {
            resource_id: "urc-alpha".to_owned(),
            permission: vec![Permission::Read, Permission::Write],
        }]
    );
    assert_eq!(accessible_resources(&rows, "").unwrap().len(), 2);
    assert_eq!(candidate_resource_ids(&rows, "").unwrap(), vec!["urc-alpha", "urc-beta"]);
    let bad = vec![role_row("alpha", "owner")];
    assert_eq!(accessible_resources(&bad, "").unwrap_err(), unknown_role_error("owner"));
    assert_eq!(candidate_resource_ids(&bad, "").unwrap_err(), unknown_role_error("owner"));
    assert!(roles_allow(&vec!["reader".to_owned()], "read").unwrap());
    assert!(!roles_allow(&vec!["reader".to_owned()], "write").unwrap());
    assert!(roles_allow(&vec!["owner".to_owned()], "read").is_err());
}

#[test]
fn the_first_answer_that_is_no_denial_decides() {
    assert_eq!(action_relations("read"), vec!["reader", "writer", "admin"]);
    assert_eq!(action_relations("write"), vec!["writer", "admin"]);
    assert_eq!(action_relations("own"), vec!["admin"]);
    let denied = || CheckOutcome::Denied;
    assert!(!check_any_relation(&vec![denied(), denied()]).unwrap());
    assert!(check_any_relation(&vec![denied(), CheckOutcome::Allowed]).unwrap());
    assert!(check_any_relation(&vec![denied(), CheckOutcome::Failed("x".to_owned())]).is_err());
    assert!(check_any_relation(&vec![CheckOutcome::Allowed, CheckOutcome::Failed("x".to_owned())]).unwrap());
    assert_eq!(
        check_allowed(&CheckOutcome::ConditionRequired(vec!["c".to_owned(), "d".to_owned()])).unwrap_err(),
        CoreError::InvalidArgument("authz: condition required: c, d".to_owned())
    );
    assert_eq!(
        permissions_from_relations(false, true, true),
        vec![Permission::Read, Permission::Write]
    );
    let mut out = vec![];
    push_accessible(&mut out, "urc-a".to_owned(), vec![]);
    assert!(out.is_empty());
    push_accessible(&mut out, "urc-a".to_owned(), vec![Permission::Read]);
    assert_eq!(out.len(), 1);
}

#[test]
fn relations_are_asked_for_in_turn() {
    let ask = |relation: &str| AccessStep::Ask(relation.to_owned());
    let denied = || CheckOutcome::Denied;
    assert_eq!(next_access_step("read", &vec![]), ask("reader"));
    assert_eq!(next_access_step("read", &vec![denied()]), ask("writer"));
    assert_eq!(
        next_access_step("read", &vec![denied(), CheckOutcome::Allowed]),
        AccessStep::Answer(Ok(true))
    );
    assert_eq!(
        next_access_step("write", &vec![denied(), denied()]),
        AccessStep::Answer(Ok(false))
    );
    assert_eq!(
        next_access_step("write", &vec![CheckOutcome::Failed("x".to_owned())]),
        AccessStep::Answer(Err(CoreError::InvalidArgument("authz: x".to_owned())))
    );
    assert_eq!(next_permission_step(&vec![]), PermissionStep::Ask("admin"));
    assert_eq!(
        next_permission_step(&vec![CheckOutcome::Allowed]),
        PermissionStep::Answer(Ok(vec![Permission::Read, Permission::Write, Permission::Admin]))
    );
    assert_eq!(next_permission_step(&vec![denied()]), PermissionStep::Ask("reader"));
    assert_eq!(
        next_permission_step(&vec![denied(), CheckOutcome::Allowed]),
        PermissionStep::Ask("writer")
    );
    assert_eq!(
        next_permission_step(&vec![denied(), CheckOutcome::Allowed, denied()]),
        PermissionStep::Answer(Ok(vec![Permission::Read]))
    );
    assert_eq!(
        next_permission_step(&vec![denied(), denied(), denied()]),
        PermissionStep::Answer(Ok(vec![]))
    );
}

fn related(tuples: &Vec<Tuple>, resource: &str, relation: &str, user: &str) -> CheckOutcome {
    let groups = reachable_group_ids_from_tuples(tuples, user);
    let holds = tuples.iter().any(|t| {
        t.object_type == "resource"
            && t.object_id == resource
            && t.relation == relation
            && match t.subject_id.strip_suffix("#member") {
                Some(group) => t.subject_type == "group" && groups.iter().any(|g| g == group),
                None => t.subject_type == "user" && t.subject_id == user,
            }
    });
    if holds {
        CheckOutcome::Allowed
    } else {
        CheckOutcome::Denied
    }
}

#[test]
fn the_list_agrees_with_what_is_asked() {
    let tuples = vec![
        tuple("resource", "urc-alpha", "reader", "user", "ada"),
        tuple("resource", "urc-beta", "writer", "group", "staff#member"),
        tuple("resource", "urc-gamma", "admin", "group", "devs#member"),
        tuple("resource", "urc-delta", "admin", "user", "bob"),
        tuple("resource", "other", "reader", "user", "ada"),
        tuple("group", "devs", "member", "user", "ada"),
        tuple("group", "staff", "member", "group", "devs#member"),
    ];
    let rows = vec![
        role_row("gamma", "admin"),
        role_row("alpha", "reader"),
        role_row("beta", "writer"),
    ];
    let ids = candidate_resource_ids(&rows, "urc-").unwrap();
    let mut out = vec![];
    for id in ids {
        let mut outcomes = vec![];
        let permission = loop {
            match next_permission_step(&outcomes) {
                PermissionStep::Ask(relation) => {
                    outcomes.push(related(&tuples, &id, relation, "ada"));
                }
                PermissionStep::Answer(answer) => break answer.unwrap(),
            }
        };
        push_accessible(&mut out, id, permission);
    }
    let may = |resource: &str, action: &str| {
        let mut outcomes = vec![];
        loop {
            match next_access_step(action, &outcomes) {
                AccessStep::Ask(relation) => {
                    outcomes.push(related(&tuples, resource, &relation, "ada"));
                }
                AccessStep::Answer(answer) => return answer.unwrap(),
            }
        }
    };
    let listed: Vec<&str> = out.iter().map(|e| e.resource_id.as_str()).collect();
    assert_eq!(listed, vec!["urc-alpha", "urc-beta", "urc-gamma"]);
    for resource in ["urc-alpha", "urc-beta", "urc-gamma", "urc-delta"] {
        let entry = out.iter().find(|e| e.resource_id == resource);
        assert_eq!(entry.is_some(), may(resource, "read"));
        let writes = entry.is_some_and(|e| e.permission.contains(&Permission::Write));
        assert_eq!(writes, may(resource, "write"));
        let rules = entry.is_some_and(|e| e.permission.contains(&Permission::Admin));
        assert_eq!(rules, resource == "urc-gamma");
    }
}

/// What a policy answers on this database: the engine knows what it was last loaded
/// with, and nothing else.
fn asked(
    conn: &rusqlite::Connection,
    loaded: &mut Vec<Tuple>,
    user: &str,
    resource: &str,
    action: &str,
) -> Result<bool, CoreError> {
    let mut turn = begin_access(AccessRequest {
        user_id: user.to_owned(),
        resource_id: resource.to_owned(),
        action: action.to_owned(),
    });
    loop {
        let (state, action) = match turn {
            AccessTurn::Ask(state, action) => (state, action),
            AccessTurn::Answer(answer) => return answer,
        };
        let event = match action {
            AccessAction::ReadRepository(id) => {
                let query = Query {
                    sql: "SELECT r.lore_repository_id, g.role, g.subject_type, g.subject_id
                          FROM repositories r LEFT JOIN grants g ON g.repository_id = r.id
                          WHERE r.status = 'active' AND r.lore_repository_id = ?1"
                        .to_owned(),
                    values: vec![id],
                };
                let rows = run(conn, &query)
                    .into_iter()
                    .map(|row| GrantRow {
                        repository_id: row[0].clone().unwrap(),
                        role: row[1].clone(),
                        subject_type: row[2].clone(),
                        subject_id: row[3].clone(),
                    })
                    .collect();
                AccessEvent::Repository(rows)
            }
            AccessAction::ReadGroups(user) => AccessEvent::Groups {
                users: member_rows(conn, USER_GROUPS_SQL, &user),
                groups: member_rows(conn, USER_GROUP_NESTING_SQL, &user),
            },
            AccessAction::Load(tuples) => {
                *loaded = tuples;
                AccessEvent::Loaded
            }
            AccessAction::Check(relation) => {
                let groups = reachable_group_ids_from_tuples(loaded, user);
                let holds = loaded.iter().any(|t| {
                    t.object_id == resource
                        && t.relation == relation
                        && (t.subject_id == user
                            || groups.iter().any(|g| t.subject_id == format!("{g}#member")))
                });
                AccessEvent::Checked(if holds { CheckOutcome::Allowed } else { CheckOutcome::Denied })
            }
        };
        turn = continue_access(state, event);
    }
}

#[test]
fn a_policy_answers_by_the_database_as_it_stands() {
    let conn = database();
    let mut loaded = vec![];
    let mut ask = |user: &str, resource: &str, action: &str| {
        let again = asked(&conn, &mut loaded, user, resource, action);
        assert_eq!(again, asked(&conn, &mut vec![], user, resource, action));
        again
    };
    assert_eq!(ask("user-1", "urc-alpha", "read"), Ok(true));
    assert_eq!(ask("user-1", "urc-alpha", "write"), Ok(false));
    assert_eq!(ask("eve", "urc-alpha", "read"), Ok(false));
    assert_eq!(ask("user-1", "urc-gamma", "read"), Err(CoreError::NotFound));
    conn.execute_batch("DELETE FROM grants WHERE id = 'g1'").expect("delete");
    assert_eq!(ask("user-1", "urc-alpha", "read"), Ok(false));
    conn.execute_batch("INSERT INTO grants VALUES('g3', 'group', 'staff', 'r1', 'admin')")
        .expect("insert");
    assert_eq!(ask("user-1", "urc-alpha", "write"), Ok(true));
    conn.execute_batch("DELETE FROM group_groups").expect("delete");
    assert_eq!(ask("user-1", "urc-alpha", "write"), Ok(false));
    conn.execute_batch("INSERT INTO group_members VALUES('staff', 'user-1')").expect("insert");
    assert_eq!(ask("user-1", "urc-alpha", "write"), Ok(true));
    conn.execute_batch("UPDATE repositories SET status = 'deleted'").expect("update");
    assert_eq!(ask("user-1", "urc-alpha", "write"), Err(CoreError::NotFound));
    conn.execute_batch(
        "UPDATE repositories SET status = 'active';
         UPDATE grants SET role = 'owner' WHERE id = 'g3'",
    )
    .expect("update");
    assert_eq!(ask("user-1", "urc-alpha", "read"), Err(unknown_role_error("owner")));
    assert_eq!(ask("eve", "urc-alpha", "read"), Ok(false));
    assert_eq!(ask("user-1", "urc-beta", "write"), Ok(true));
}

#[test]
fn a_question_takes_no_other_answers() {
    let req = AccessRequest {
        user_id: "user-1".to_owned(),
        resource_id: "urc-alpha".to_owned(),
        action: "read".to_owned(),
    };
    assert_eq!(
        continue_access(AccessState::Loading(req), AccessEvent::Repository(vec![])),
        AccessTurn::Answer(Err(CoreError::InvalidArgument(
            "authz: unexpected answer to a question".to_owned()
        )))
    );
}
