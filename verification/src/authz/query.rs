//! What to ask the database for, given which tuples are wanted.

use vstd::prelude::*;

use crate::authz;
use crate::authz::{matches_filter_value, TupleFilter, TupleFilterView};
use crate::order;
use crate::resource_id;
use crate::resource_id::ResourceID;
use crate::text;
use crate::text::{cat2, cat3, decimal_text, join, same, strip_suffix};

verus! {

/// A query, and the values for the question marks in it.
#[derive(Debug, PartialEq, Eq)]
pub struct Query {
    pub sql: String,
    pub values: Vec<String>,
}

/// Who a role is granted to.
#[derive(Clone, Copy, Debug, PartialEq, Eq, Structural)]
pub enum SubjectKind {
    User,
    Group,
}

/// The name of a kind of subject.
pub open spec fn kind_name(k: SubjectKind) -> Seq<char> {
    match k {
        SubjectKind::User => "user"@,
        SubjectKind::Group => "group"@,
    }
}

/// What a row of the grants has to meet.
#[derive(Debug, PartialEq, Eq)]
pub enum GrantClause {
    /// The grant is on this repository.
    Repository(String),
    /// The grant is of this role.
    Role(String),
    /// The grant is to a subject of this kind.
    Kind(SubjectKind),
    /// The grant is to the subject with this identifier.
    Subject(String),
    /// The grant is to this group, or to this user.
    GroupOrUser(String, String),
}

/// The view of [`GrantClause`].
pub enum GrantClauseView {
    Repository(Seq<char>),
    Role(Seq<char>),
    Kind(SubjectKind),
    Subject(Seq<char>),
    GroupOrUser(Seq<char>, Seq<char>),
}

impl View for GrantClause {
    type V = GrantClauseView;

    open spec fn view(&self) -> GrantClauseView {
        match self {
            GrantClause::Repository(s) => GrantClauseView::Repository(s@),
            GrantClause::Role(s) => GrantClauseView::Role(s@),
            GrantClause::Kind(k) => GrantClauseView::Kind(*k),
            GrantClause::Subject(s) => GrantClauseView::Subject(s@),
            GrantClause::GroupOrUser(g, u) => GrantClauseView::GroupOrUser(g@, u@),
        }
    }
}

/// A row of the grants.
#[verifier::ext_equal]
pub struct GrantRowView {
    pub repository_id: Seq<char>,
    pub role: Seq<char>,
    pub subject_type: Seq<char>,
    pub subject_id: Seq<char>,
}

/// Whether a row of the grants meets a clause.
pub open spec fn meets(row: GrantRowView, c: GrantClauseView) -> bool {
    match c {
        GrantClauseView::Repository(id) => row.repository_id == id,
        GrantClauseView::Role(role) => row.role == role,
        GrantClauseView::Kind(k) => row.subject_type == kind_name(k),
        GrantClauseView::Subject(id) => row.subject_id == id,
        GrantClauseView::GroupOrUser(group, user) => {
            ||| row.subject_type == "group"@ && row.subject_id == group
            ||| row.subject_type == "user"@ && row.subject_id == user
        },
    }
}

/// Whether a row of the grants meets all of some clauses.
pub open spec fn meets_all(row: GrantRowView, v: Seq<GrantClauseView>) -> bool {
    forall|i: int| 0 <= i < v.len() ==> meets(row, #[trigger] v[i])
}

/// A clause as it is written.
pub open spec fn grant_clause_sql(c: GrantClauseView) -> Seq<char> {
    match c {
        GrantClauseView::Repository(_) => "r.lore_repository_id = ?"@,
        GrantClauseView::Role(_) => "g.role = ?"@,
        GrantClauseView::Kind(SubjectKind::User) => "g.subject_type = 'user'"@,
        GrantClauseView::Kind(SubjectKind::Group) => "g.subject_type = 'group'"@,
        GrantClauseView::Subject(_) => "g.subject_id = ?"@,
        GrantClauseView::GroupOrUser(_, _) =>
            "((g.subject_type = 'group' AND g.subject_id = ?)
                       OR (g.subject_type = 'user' AND g.subject_id = ?))"@,
    }
}

/// The values for the question marks of a clause.
pub open spec fn grant_clause_values(c: GrantClauseView) -> Seq<Seq<char>> {
    match c {
        GrantClauseView::Repository(v) => seq![v],
        GrantClauseView::Role(v) => seq![v],
        GrantClauseView::Kind(_) => Seq::empty(),
        GrantClauseView::Subject(v) => seq![v],
        GrantClauseView::GroupOrUser(g, u) => seq![g, u],
    }
}

/// The clauses as they are written.
pub open spec fn grant_sqls(v: Seq<GrantClauseView>) -> Seq<Seq<char>> {
    Seq::new(v.len(), |i: int| grant_clause_sql(v[i]))
}

/// The values for the question marks of some clauses.
pub open spec fn grant_values(v: Seq<GrantClauseView>) -> Seq<Seq<char>>
    decreases v.len(),
{
    if v.len() == 0 {
        Seq::empty()
    } else {
        grant_values(v.drop_last()) + grant_clause_values(v.last())
    }
}

/// What a grant has to meet for its subject to be one that is wanted; none where
/// no subject is.
pub open spec fn subject_clauses(f: TupleFilterView) -> Option<Seq<GrantClauseView>> {
    match (f.subject_type, f.subject_id) {
        (Some(kind), Some(id)) => if kind == "user"@ {
            Some(
                seq![GrantClauseView::Kind(SubjectKind::User), GrantClauseView::Subject(id)],
            )
        } else if kind == "group"@ {
            match text::without_suffix(id, "#member"@) {
                Some(group) => Some(
                    seq![GrantClauseView::Kind(SubjectKind::Group), GrantClauseView::Subject(group)],
                ),
                None => None,
            }
        } else {
            None
        },
        (Some(kind), None) => if kind == "user"@ {
            Some(seq![GrantClauseView::Kind(SubjectKind::User)])
        } else if kind == "group"@ {
            Some(seq![GrantClauseView::Kind(SubjectKind::Group)])
        } else {
            None
        },
        (None, Some(id)) => match text::without_suffix(id, "#member"@) {
            Some(group) => Some(seq![GrantClauseView::GroupOrUser(group, id)]),
            None => Some(
                seq![GrantClauseView::Kind(SubjectKind::User), GrantClauseView::Subject(id)],
            ),
        },
        (None, None) => Some(Seq::empty()),
    }
}

/// A clause for each value that is asked for.
pub open spec fn object_clauses(f: TupleFilterView) -> Seq<GrantClauseView> {
    let on = match f.object_id {
        Some(id) => seq![GrantClauseView::Repository(resource_id::repository_of(id))],
        None => Seq::empty(),
    };
    match f.relation {
        Some(role) => on.push(GrantClauseView::Role(role)),
        None => on,
    }
}

/// What a grant has to meet to be one that is wanted; none where no grant is.
pub open spec fn grant_clauses(f: TupleFilterView) -> Option<Seq<GrantClauseView>> {
    if !authz::fits("resource"@, f.object_type) {
        None
    } else {
        match subject_clauses(f) {
            Some(subject) => Some(object_clauses(f) + subject),
            None => None,
        }
    }
}

/// The query for the grants that meet some clauses.
pub open spec fn grants_sql(v: Seq<GrantClauseView>) -> Seq<char> {
    "SELECT r.lore_repository_id, g.role, g.subject_type, g.subject_id
         FROM grants g
         JOIN repositories r ON r.id = g.repository_id
         WHERE "@ + text::joined(seq!["r.status = 'active'"@] + grant_sqls(v), " AND "@)
        + "
         ORDER BY r.lore_repository_id, g.role, g.subject_type, g.subject_id"@
}

/// Adds what a grant has to meet for its subject to be one that is wanted.
pub fn push_grant_subject_filter(filter: &TupleFilter, clauses: &mut Vec<GrantClause>) -> (r: bool)
    ensures
        match subject_clauses(filter@) {
            Some(more) => r && order::views(final(clauses)@) == order::views(old(clauses)@) + more,
            None => !r && final(clauses)@ == old(clauses)@,
        },
{
    let ghost before = order::views(clauses@);
    match (&filter.subject_type, &filter.subject_id) {
        (Some(kind), Some(id)) => {
            if same(kind.as_str(), "user") {
                clauses.push(GrantClause::Kind(SubjectKind::User));
                clauses.push(GrantClause::Subject(id.clone()));
            } else if same(kind.as_str(), "group") {
                match strip_suffix(id.as_str(), "#member") {
                    Some(group) => {
                        clauses.push(GrantClause::Kind(SubjectKind::Group));
                        clauses.push(GrantClause::Subject(group));
                    },
                    None => return false,
                }
            } else {
                return false;
            }
        },
        (Some(kind), None) => {
            if same(kind.as_str(), "user") {
                clauses.push(GrantClause::Kind(SubjectKind::User));
            } else if same(kind.as_str(), "group") {
                clauses.push(GrantClause::Kind(SubjectKind::Group));
            } else {
                return false;
            }
        },
        (None, Some(id)) => match strip_suffix(id.as_str(), "#member") {
            Some(group) => clauses.push(GrantClause::GroupOrUser(group, id.clone())),
            None => {
                clauses.push(GrantClause::Kind(SubjectKind::User));
                clauses.push(GrantClause::Subject(id.clone()));
            },
        },
        (None, None) => {},
    }
    assert(order::views(clauses@) =~= before + subject_clauses(filter@)->0);
    true
}

fn grant_clause_text(c: &GrantClause) -> (r: String)
    ensures
        r@ == grant_clause_sql(c@),
{
    match c {
        GrantClause::Repository(_) => "r.lore_repository_id = ?".to_owned(),
        GrantClause::Role(_) => "g.role = ?".to_owned(),
        GrantClause::Kind(SubjectKind::User) => "g.subject_type = 'user'".to_owned(),
        GrantClause::Kind(SubjectKind::Group) => "g.subject_type = 'group'".to_owned(),
        GrantClause::Subject(_) => "g.subject_id = ?".to_owned(),
        GrantClause::GroupOrUser(_, _) =>
            "((g.subject_type = 'group' AND g.subject_id = ?)
                       OR (g.subject_type = 'user' AND g.subject_id = ?))".to_owned(),
    }
}

/// The query for the grants that meet some clauses.
fn grants_query(clauses: &Vec<GrantClause>) -> (r: Query)
    ensures
        r.sql@ == grants_sql(order::views(clauses@)),
        text::texts(r.values@) == grant_values(order::views(clauses@)),
{
    let ghost all = order::views(clauses@);
    let mut sqls: Vec<String> = Vec::new();
    let mut values: Vec<String> = Vec::new();
    sqls.push("r.status = 'active'".to_owned());
    let mut i: usize = 0;
    assert(text::texts(sqls@) =~= seq!["r.status = 'active'"@] + grant_sqls(all.take(0)));
    assert(text::texts(values@) =~= grant_values(all.take(0)));
    while i < clauses.len()
        invariant
            i <= clauses@.len(),
            all == order::views(clauses@),
            text::texts(sqls@) == seq!["r.status = 'active'"@] + grant_sqls(all.take(i as int)),
            text::texts(values@) == grant_values(all.take(i as int)),
        decreases clauses@.len() - i,
    {
        let ghost c = clauses@[i as int]@;
        let ghost sqls_before = text::texts(sqls@);
        let ghost values_before = text::texts(values@);
        sqls.push(grant_clause_text(&clauses[i]));
        match &clauses[i] {
            GrantClause::Repository(v) => values.push(v.clone()),
            GrantClause::Role(v) => values.push(v.clone()),
            GrantClause::Kind(_) => {},
            GrantClause::Subject(v) => values.push(v.clone()),
            GrantClause::GroupOrUser(g, u) => {
                values.push(g.clone());
                values.push(u.clone());
            },
        }
        assert(all.take(i + 1).drop_last() =~= all.take(i as int));
        assert(all.take(i + 1).last() == c);
        assert(text::texts(sqls@) =~= sqls_before.push(grant_clause_sql(c)));
        assert(grant_sqls(all.take(i + 1)) =~= grant_sqls(all.take(i as int)).push(
            grant_clause_sql(c),
        ));
        assert(sqls_before.push(grant_clause_sql(c)) =~= seq!["r.status = 'active'"@] + grant_sqls(
            all.take(i + 1),
        ));
        assert(text::texts(values@) =~= values_before + grant_clause_values(c));
        i += 1;
    }
    assert(all.take(i as int) =~= all);
    let conditions = join(&sqls, " AND ");
    let sql = cat3(
        "SELECT r.lore_repository_id, g.role, g.subject_type, g.subject_id
         FROM grants g
         JOIN repositories r ON r.id = g.repository_id
         WHERE ",
        conditions.as_str(),
        "
         ORDER BY r.lore_repository_id, g.role, g.subject_type, g.subject_id",
    );
    Query { sql, values }
}

/// Whether `q` is the query for the grants that are wanted, if any are.
pub open spec fn is_grant_query(q: Option<Query>, f: TupleFilterView) -> bool {
    match (q, grant_clauses(f)) {
        (Some(q), Some(clauses)) => q.sql@ == grants_sql(clauses) && text::texts(q.values@)
            == grant_values(clauses),
        (None, None) => true,
        _ => false,
    }
}

/// The query for the grants that are wanted.
pub fn grant_query(filter: &TupleFilter) -> (r: Option<Query>)
    ensures
        is_grant_query(r, filter@),
{
    if !matches_filter_value("resource", &filter.object_type) {
        return None;
    }
    let mut clauses: Vec<GrantClause> = Vec::new();
    if let Some(object_id) = &filter.object_id {
        clauses.push(
            GrantClause::Repository(ResourceID::repository_id_from_resource_id(object_id.as_str())),
        );
    }
    if let Some(relation) = &filter.relation {
        clauses.push(GrantClause::Role(relation.clone()));
    }
    assert(order::views(clauses@) =~= object_clauses(filter@));
    if !push_grant_subject_filter(filter, &mut clauses) {
        return None;
    }
    Some(grants_query(&clauses))
}

/// Which rows of a table of members to read: those of a group, those with a
/// member, or both; none where nothing is wanted.
#[verifier::ext_equal]
pub struct MemberClausesView {
    pub group: Option<Seq<char>>,
    pub member: Option<Seq<char>>,
}

/// Whether a row of a table of members, a group and what is in it, is one to read.
pub open spec fn meets_member(row: (Seq<char>, Seq<char>), c: MemberClausesView) -> bool {
    authz::fits(row.0, c.group) && authz::fits(row.1, c.member)
}

/// The users that are wanted as members.
pub open spec fn user_clauses(f: TupleFilterView) -> Option<MemberClausesView> {
    if authz::fits("group"@, f.object_type) && authz::fits("member"@, f.relation) && authz::fits(
        "user"@,
        f.subject_type,
    ) {
        Some(MemberClausesView { group: f.object_id, member: f.subject_id })
    } else {
        None
    }
}

/// The groups that are wanted as members.
pub open spec fn nested_clauses(f: TupleFilterView) -> Option<MemberClausesView> {
    if authz::fits("group"@, f.object_type) && authz::fits("member"@, f.relation) && authz::fits(
        "group"@,
        f.subject_type,
    ) {
        match f.subject_id {
            None => Some(MemberClausesView { group: f.object_id, member: None }),
            Some(id) => match text::without_suffix(id, "#member"@) {
                Some(group) => Some(MemberClausesView { group: f.object_id, member: Some(group) }),
                None => None,
            },
        }
    } else {
        None
    }
}

/// The condition on a group and a member, where the members are in `column`.
pub open spec fn member_where(c: MemberClausesView, column: Seq<char>) -> Seq<char> {
    match (c.group, c.member) {
        (None, None) => Seq::empty(),
        (Some(_), None) => " WHERE "@ + "group_id = ?"@,
        (None, Some(_)) => " WHERE "@ + (column + " = ?"@),
        (Some(_), Some(_)) => " WHERE "@ + ("group_id = ?"@ + " AND "@ + (column + " = ?"@)),
    }
}

/// The values for the question marks of a condition.
pub open spec fn member_values(c: MemberClausesView) -> Seq<Seq<char>> {
    let group = match c.group {
        Some(v) => seq![v],
        None => Seq::empty(),
    };
    match c.member {
        Some(v) => group.push(v),
        None => group,
    }
}

/// The query for rows of a table of members, where the members are in `column`.
pub open spec fn members_sql(
    c: MemberClausesView,
    table: Seq<char>,
    column: Seq<char>,
) -> Seq<char> {
    "SELECT group_id, "@ + column + "
         FROM "@ + table + member_where(c, column) + "
         ORDER BY group_id, "@ + column
}

/// Whether `q` is the query for rows of a table of members, if any are wanted.
pub open spec fn is_member_query(
    q: Option<Query>,
    c: Option<MemberClausesView>,
    table: Seq<char>,
    column: Seq<char>,
) -> bool {
    match (q, c) {
        (Some(q), Some(c)) => q.sql@ == members_sql(c, table, column) && text::texts(q.values@)
            == member_values(c),
        (None, None) => true,
        _ => false,
    }
}

fn members_query(group: &Option<String>, member: Option<String>, table: &str, column: &str) -> (r:
    Query)
    ensures
        is_member_query(
            Some(r),
            Some(
                MemberClausesView {
                    group: text::opt_text(*group),
                    member: text::opt_text(member),
                },
            ),
            table@,
            column@,
        ),
{
    let mut values: Vec<String> = Vec::new();
    let ghost c = MemberClausesView {
        group: text::opt_text(*group),
        member: text::opt_text(member),
    };
    let given = group.is_some();
    if let Some(v) = group {
        values.push(v.clone());
    }
    let condition = match member {
        None => if given {
            cat2(" WHERE ", "group_id = ?")
        } else {
            let nothing = String::new();
            assert(nothing@ =~= Seq::<char>::empty());
            nothing
        },
        Some(v) => {
            values.push(v);
            let is_member = cat2(column, " = ?");
            if given {
                cat2(" WHERE ", cat3("group_id = ?", " AND ", is_member.as_str()).as_str())
            } else {
                cat2(" WHERE ", is_member.as_str())
            }
        },
    };
    assert(text::texts(values@) =~= member_values(c));
    let from = cat3("SELECT group_id, ", column, "
         FROM ");
    let what = cat3(from.as_str(), table, condition.as_str());
    let sql = cat3(what.as_str(), "
         ORDER BY group_id, ", column);
    Query { sql, values }
}

/// The query for the users that are wanted as members.
pub fn user_member_query(filter: &TupleFilter) -> (r: Option<Query>)
    ensures
        is_member_query(r, user_clauses(filter@), "group_members"@, "user_id"@),
{
    if !matches_filter_value("group", &filter.object_type) || !matches_filter_value(
        "member",
        &filter.relation,
    ) || !matches_filter_value("user", &filter.subject_type) {
        return None;
    }
    Some(members_query(&filter.object_id, filter.subject_id.clone(), "group_members", "user_id"))
}

/// The query for the groups that are wanted as members.
pub fn nested_member_query(filter: &TupleFilter) -> (r: Option<Query>)
    ensures
        is_member_query(r, nested_clauses(filter@), "group_groups"@, "member_group_id"@),
{
    if !matches_filter_value("group", &filter.object_type) || !matches_filter_value(
        "member",
        &filter.relation,
    ) || !matches_filter_value("group", &filter.subject_type) {
        return None;
    }
    let member = match &filter.subject_id {
        None => None,
        Some(id) => match strip_suffix(id.as_str(), "#member") {
            Some(group) => Some(group),
            None => return None,
        },
    };
    Some(members_query(&filter.object_id, member, "group_groups", "member_group_id"))
}

/// The numbered question marks from the first to the `n`th.
pub open spec fn placeholders(n: nat) -> Seq<Seq<char>> {
    Seq::new(n, |i: int| "?"@ + text::decimal((i + 1) as nat))
}

/// The query for the grants on some repositories.
pub open spec fn candidate_sql(n: nat) -> Seq<char> {
    "SELECT r.lore_repository_id, g.role, g.subject_type, g.subject_id
         FROM repositories r
         JOIN grants g ON g.repository_id = r.id
         WHERE r.status = 'active'
           AND r.lore_repository_id IN ("@ + text::joined(placeholders(n), ", "@) + ")
         ORDER BY r.lore_repository_id, g.role, g.subject_type, g.subject_id"@
}

/// The repositories that some resources stand for.
pub open spec fn repositories_of(v: Seq<Seq<char>>) -> Seq<Seq<char>> {
    Seq::new(v.len(), |i: int| resource_id::repository_of(v[i]))
}

/// The query for the grants on some resources, unless there are none.
pub fn candidate_query(resource_ids: &Vec<String>) -> (r: Option<Query>)
    ensures
        match r {
            Some(q) => {
                &&& resource_ids@.len() > 0
                &&& q.sql@ == candidate_sql(resource_ids@.len())
                &&& text::texts(q.values@) == repositories_of(text::texts(resource_ids@))
            },
            None => resource_ids@.len() == 0,
        },
{
    if resource_ids.len() == 0 {
        return None;
    }
    let mut values: Vec<String> = Vec::new();
    let mut marks: Vec<String> = Vec::new();
    let mut i: usize = 0;
    while i < resource_ids.len()
        invariant
            i <= resource_ids@.len(),
            values@.len() == i,
            marks@.len() == i,
            forall|j: int|
                0 <= j < i ==> (#[trigger] values@[j])@ == resource_id::repository_of(
                    resource_ids@[j]@,
                ),
            forall|j: int|
                0 <= j < i ==> (#[trigger] marks@[j])@ == "?"@ + text::decimal((j + 1) as nat),
        decreases resource_ids@.len() - i,
    {
        values.push(ResourceID::repository_id_from_resource_id(resource_ids[i].as_str()));
        i += 1;
        marks.push(cat2("?", decimal_text(i as u64).as_str()));
    }
    assert(text::texts(values@) =~= repositories_of(text::texts(resource_ids@)));
    assert(text::texts(marks@) =~= placeholders(resource_ids@.len()));
    let list = join(&marks, ", ");
    let sql = cat3(
        "SELECT r.lore_repository_id, g.role, g.subject_type, g.subject_id
         FROM repositories r
         JOIN grants g ON g.repository_id = r.id
         WHERE r.status = 'active'
           AND r.lore_repository_id IN (",
        list.as_str(),
        ")
         ORDER BY r.lore_repository_id, g.role, g.subject_type, g.subject_id",
    );
    Some(Query { sql, values })
}

} // verus!
