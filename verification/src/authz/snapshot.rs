//! The tuples that are read for one question, and what can be told from them
//! before the question is asked.

use vstd::prelude::*;

use crate::authz::gather;
use crate::authz::gather::{resource_of, roles_allow};
use crate::authz::query::GrantRowView;
use crate::authz::{Tuple, TupleView};
use crate::error::{CoreError, CoreErrorView};
use crate::nesting;
use crate::nesting::GroupEdge;
use crate::order;
use crate::order::{sort, Ranked};
use crate::resource_id;
use crate::text;
use crate::text::{cat2, has_member, same, strip_suffix};
use crate::walk::reached_groups;

verus! {

/// The groups that a user is directly in.
pub const USER_GROUPS_SQL: &'static str = "SELECT group_id, user_id
             FROM group_members
             WHERE user_id = ?1
             ORDER BY group_id, user_id";

/// Which groups a group is directly in, of the groups that a user is in directly
/// or through other groups.
pub const USER_GROUP_NESTING_SQL: &'static str = "WITH RECURSIVE user_groups(group_id) AS (
               SELECT group_id
               FROM group_members
               WHERE user_id = ?1
               UNION
               SELECT gg.group_id
               FROM group_groups gg
               JOIN user_groups ug ON gg.member_group_id = ug.group_id
             )
             SELECT gg.group_id, gg.member_group_id
             FROM group_groups gg
             JOIN user_groups ug ON gg.member_group_id = ug.group_id
             ORDER BY gg.group_id, gg.member_group_id";

/// A repository and a role that is granted on it, if any is.
#[derive(Debug, PartialEq, Eq)]
pub struct GrantRow {
    pub repository_id: String,
    pub role: Option<String>,
    pub subject_type: Option<String>,
    pub subject_id: Option<String>,
}

impl View for GrantRow {
    type V = (Seq<char>, Option<GrantRowView>);

    open spec fn view(&self) -> (Seq<char>, Option<GrantRowView>) {
        (
            self.repository_id@,
            match (self.role, self.subject_type, self.subject_id) {
                (Some(role), Some(kind), Some(id)) => Some(
                    GrantRowView {
                        repository_id: self.repository_id@,
                        role: role@,
                        subject_type: kind@,
                        subject_id: id@,
                    },
                ),
                _ => None,
            },
        )
    }
}

/// A group and what is directly in it.
#[derive(Debug, PartialEq, Eq)]
pub struct MemberRow {
    pub group_id: String,
    pub member_id: String,
}

impl View for MemberRow {
    type V = (Seq<char>, Seq<char>);

    open spec fn view(&self) -> (Seq<char>, Seq<char>) {
        (self.group_id@, self.member_id@)
    }
}

/// How the members of a group are named as a subject.
pub open spec fn members_of(group: Seq<char>) -> Seq<char> {
    group + "#member"@
}

/// The tuple of a grant.
pub open spec fn tuple_of_grant(row: GrantRowView) -> TupleView {
    TupleView {
        object_type: "resource"@,
        object_id: gather::resource_or_empty(row.repository_id),
        relation: row.role,
        subject_type: row.subject_type,
        subject_id: if row.subject_type == "group"@ {
            members_of(row.subject_id)
        } else {
            row.subject_id
        },
    }
}

/// The tuple of a user in a group.
pub open spec fn tuple_of_user(row: (Seq<char>, Seq<char>)) -> TupleView {
    TupleView {
        object_type: "group"@,
        object_id: row.0,
        relation: "member"@,
        subject_type: "user"@,
        subject_id: row.1,
    }
}

/// The tuple of a group in a group.
pub open spec fn tuple_of_group(row: (Seq<char>, Seq<char>)) -> TupleView {
    TupleView {
        object_type: "group"@,
        object_id: row.0,
        relation: "member"@,
        subject_type: "group"@,
        subject_id: members_of(row.1),
    }
}

/// The tuples of the grants among some rows.
pub open spec fn grant_tuples(rows: Seq<(Seq<char>, Option<GrantRowView>)>) -> Seq<TupleView>
    decreases rows.len(),
{
    if rows.len() == 0 {
        Seq::empty()
    } else {
        match rows.last().1 {
            Some(row) => grant_tuples(rows.drop_last()).push(tuple_of_grant(row)),
            None => grant_tuples(rows.drop_last()),
        }
    }
}

/// The tuples of users in groups, then those of groups in groups.
pub open spec fn member_tuples(
    users: Seq<(Seq<char>, Seq<char>)>,
    groups: Seq<(Seq<char>, Seq<char>)>,
) -> Seq<TupleView> {
    Seq::new(users.len(), |i: int| tuple_of_user(users[i])) + Seq::new(
        groups.len(),
        |i: int| tuple_of_group(groups[i]),
    )
}

/// The tuple of a grant.
pub fn grant_tuple(
    lore_repository_id: String,
    relation: String,
    subject_type: String,
    raw_subject_id: String,
) -> (r: Tuple)
    ensures
        r@ == tuple_of_grant(
            GrantRowView {
                repository_id: lore_repository_id@,
                role: relation@,
                subject_type: subject_type@,
                subject_id: raw_subject_id@,
            },
        ),
{
    let subject_id = if same(subject_type.as_str(), "group") {
        cat2(raw_subject_id.as_str(), "#member")
    } else {
        raw_subject_id
    };
    Tuple {
        object_type: "resource".to_owned(),
        object_id: resource_of(lore_repository_id.as_str()),
        relation,
        subject_type,
        subject_id,
    }
}

/// The tuple of a row, if it has a grant.
pub fn grant_tuple_from_row(row: GrantRow) -> (r: Option<Tuple>)
    ensures
        match (r, row@.1) {
            (Some(t), Some(grant)) => t@ == tuple_of_grant(grant),
            (None, None) => true,
            _ => false,
        },
{
    match (row.role, row.subject_type, row.subject_id) {
        (Some(relation), Some(subject_type), Some(raw_subject_id)) => Some(
            grant_tuple(row.repository_id, relation, subject_type, raw_subject_id),
        ),
        _ => None,
    }
}

/// The tuple of a user in a group.
pub fn user_tuple(row: MemberRow) -> (r: Tuple)
    ensures
        r@ == tuple_of_user(row@),
{
    Tuple {
        object_type: "group".to_owned(),
        object_id: row.group_id,
        relation: "member".to_owned(),
        subject_type: "user".to_owned(),
        subject_id: row.member_id,
    }
}

/// The tuple of a group in a group.
pub fn group_tuple(row: MemberRow) -> (r: Tuple)
    ensures
        r@ == tuple_of_group(row@),
{
    Tuple {
        object_type: "group".to_owned(),
        object_id: row.group_id,
        relation: "member".to_owned(),
        subject_type: "group".to_owned(),
        subject_id: cat2(row.member_id.as_str(), "#member"),
    }
}

/// The tuples of the grants among some rows.
pub fn grant_tuples_from_rows(rows: Vec<GrantRow>) -> (r: Vec<Tuple>)
    ensures
        order::views(r@) == grant_tuples(order::views(rows@)),
{
    let ghost all = order::views(rows@);
    let mut rest = rows;
    let mut out: Vec<Tuple> = Vec::new();
    let ghost mut done: int = 0;
    assert(order::views(out@) =~= grant_tuples(all.take(0)));
    assert(all.skip(0) =~= all);
    while rest.len() > 0
        invariant
            0 <= done <= all.len(),
            order::views(rest@) == all.skip(done),
            order::views(out@) == grant_tuples(all.take(done)),
        decreases rest@.len(),
    {
        let ghost before = order::views(out@);
        let ghost left = order::views(rest@);
        assert(left.len() == all.len() - done);
        assert(left.len() > 0);
        let row = rest.remove(0);
        assert(row@ == left[0]);
        assert(order::views(rest@) =~= left.skip(1));
        assert(left.skip(1) =~= all.skip(done + 1));
        assert(all.take(done + 1).drop_last() =~= all.take(done));
        assert(all.take(done + 1).last() == row@);
        let ghost view = row@;
        if let Some(tuple) = grant_tuple_from_row(row) {
            out.push(tuple);
            assert(order::views(out@) =~= before.push(tuple_of_grant(view.1->0)));
        }
        proof {
            done = done + 1;
        }
    }
    assert(order::views(rest@).len() == 0);
    assert(all.take(done) =~= all);
    out
}

/// The tuples of the grants on one repository. Where there are no rows there is
/// no such repository.
pub fn repository_tuples(rows: Vec<GrantRow>) -> (r: Result<Vec<Tuple>, CoreError>)
    ensures
        match r {
            Ok(tuples) => rows@.len() > 0 && order::views(tuples@) == grant_tuples(
                order::views(rows@),
            ),
            Err(e) => rows@.len() == 0 && e@ == CoreErrorView::NotFound,
        },
{
    if rows.len() == 0 {
        return Err(CoreError::NotFound);
    }
    Ok(grant_tuples_from_rows(rows))
}

fn copy_row(row: &MemberRow) -> (r: MemberRow)
    ensures
        r@ == row@,
{
    MemberRow { group_id: row.group_id.clone(), member_id: row.member_id.clone() }
}

/// The tuples of users in groups, then those of groups in groups.
pub fn member_tuples_from_rows(users: &Vec<MemberRow>, groups: &Vec<MemberRow>) -> (r: Vec<Tuple>)
    ensures
        order::views(r@) == member_tuples(order::views(users@), order::views(groups@)),
{
    let mut out: Vec<Tuple> = Vec::new();
    let mut i: usize = 0;
    while i < users.len()
        invariant
            i <= users@.len(),
            out@.len() == i,
            forall|j: int| 0 <= j < i ==> (#[trigger] out@[j])@ == tuple_of_user(users@[j]@),
        decreases users@.len() - i,
    {
        out.push(user_tuple(copy_row(&users[i])));
        i += 1;
    }
    let mut n: usize = 0;
    while n < groups.len()
        invariant
            n <= groups@.len(),
            out@.len() == users@.len() + n,
            forall|j: int|
                0 <= j < users@.len() ==> (#[trigger] out@[j])@ == tuple_of_user(users@[j]@),
            forall|j: int|
                users@.len() <= j < users@.len() + n ==> (#[trigger] out@[j])@ == tuple_of_group(
                    groups@[j - users@.len()]@,
                ),
        decreases groups@.len() - n,
    {
        out.push(group_tuple(copy_row(&groups[n])));
        n += 1;
    }
    assert(order::views(out@) =~= member_tuples(order::views(users@), order::views(groups@)));
    out
}

/// The group that a tuple puts the user in, if it does.
pub open spec fn group_of(t: TupleView, user: Seq<char>) -> Option<Seq<char>> {
    if t == tuple_of_user((t.object_id, user)) {
        Some(t.object_id)
    } else {
        None
    }
}

/// The group that a tuple puts inside another one, and that other one.
pub open spec fn nesting_of(t: TupleView) -> Option<(Seq<char>, Seq<char>)> {
    if t.object_type == "group"@ && t.relation == "member"@ && t.subject_type == "group"@ {
        match text::without_suffix(t.subject_id, "#member"@) {
            Some(member) => Some((member, t.object_id)),
            None => None,
        }
    } else {
        None
    }
}

/// The groups that a user is directly in, by some tuples.
pub open spec fn groups_in(v: Seq<TupleView>, user: Seq<char>) -> Seq<Seq<char>>
    decreases v.len(),
{
    if v.len() == 0 {
        Seq::empty()
    } else {
        match group_of(v.last(), user) {
            Some(g) => groups_in(v.drop_last(), user).push(g),
            None => groups_in(v.drop_last(), user),
        }
    }
}

/// Which groups are directly inside which, by some tuples.
pub open spec fn nestings_in(v: Seq<TupleView>) -> Seq<(Seq<char>, Seq<char>)>
    decreases v.len(),
{
    if v.len() == 0 {
        Seq::empty()
    } else {
        match nesting_of(v.last()) {
            Some(e) => nestings_in(v.drop_last()).push(e),
            None => nestings_in(v.drop_last()),
        }
    }
}

/// Whether a user is in a group, directly or through other groups, by some tuples.
pub open spec fn reaches(v: Seq<TupleView>, user: Seq<char>, group: Seq<char>) -> bool {
    nesting::reached(nestings_in(v), groups_in(v, user), group)
}

/// The groups that a user is in, directly or through other groups, each once.
pub fn reachable_group_ids_from_tuples(tuples: &Vec<Tuple>, user_id: &str) -> (r: Vec<String>)
    ensures
        text::texts(r@).no_duplicates(),
        forall|g: Seq<char>| #[trigger]
            text::texts(r@).contains(g) <==> reaches(order::views(tuples@), user_id@, g),
{
    let ghost all = order::views(tuples@);
    let mut direct: Vec<String> = Vec::new();
    let mut edges: Vec<GroupEdge> = Vec::new();
    let mut i: usize = 0;
    assert(text::texts(direct@) =~= groups_in(all.take(0), user_id@));
    assert(nesting::edges_of(edges@) =~= nestings_in(all.take(0)));
    while i < tuples.len()
        invariant
            i <= tuples@.len(),
            all == order::views(tuples@),
            text::texts(direct@) == groups_in(all.take(i as int), user_id@),
            nesting::edges_of(edges@) == nestings_in(all.take(i as int)),
        decreases tuples@.len() - i,
    {
        let ghost direct_before = text::texts(direct@);
        let ghost edges_before = nesting::edges_of(edges@);
        let t = &tuples[i];
        assert(all.take(i + 1).drop_last() =~= all.take(i as int));
        assert(all.take(i + 1).last() == t@);
        if same(t.object_type.as_str(), "group") && same(t.relation.as_str(), "member") {
            if same(t.subject_type.as_str(), "user") && same(t.subject_id.as_str(), user_id) {
                direct.push(t.object_id.clone());
                assert(t@ =~= tuple_of_user((t@.object_id, user_id@)));
                assert(text::texts(direct@) =~= direct_before.push(t@.object_id));
            }
            if same(t.subject_type.as_str(), "group") {
                if let Some(member) = strip_suffix(t.subject_id.as_str(), "#member") {
                    let edge = GroupEdge { member, parent: t.object_id.clone() };
                    let ghost view = edge@;
                    edges.push(edge);
                    assert(nesting::edges_of(edges@) =~= edges_before.push(view));
                }
            }
        }
        i += 1;
    }
    assert(all.take(i as int) =~= all);
    reached_groups(&direct, &edges)
}

/// The role that a tuple gives the user, if it does: on a resource, to the user
/// or to a group that the user is in.
pub open spec fn role_of(t: TupleView, v: Seq<TupleView>, user: Seq<char>) -> Option<Seq<char>> {
    if t.object_type != "resource"@ {
        None
    } else if t.subject_type == "user"@ && t.subject_id == user {
        Some(t.relation)
    } else if t.subject_type == "group"@ {
        match text::without_suffix(t.subject_id, "#member"@) {
            Some(group) => if reaches(v, user, group) {
                Some(t.relation)
            } else {
                None
            },
            None => None,
        }
    } else {
        None
    }
}

/// The roles that some tuples give the user, where group membership is by `v`.
pub open spec fn roles_in(s: Seq<TupleView>, v: Seq<TupleView>, user: Seq<char>) -> Seq<Seq<char>>
    decreases s.len(),
{
    if s.len() == 0 {
        Seq::empty()
    } else {
        match role_of(s.last(), v, user) {
            Some(role) => roles_in(s.drop_last(), v, user).push(role),
            None => roles_in(s.drop_last(), v, user),
        }
    }
}

/// The roles that some tuples give a user, in the order of their names.
pub open spec fn sorted_roles(v: Seq<TupleView>, user: Seq<char>) -> Seq<Seq<char>> {
    choose|sorted: Seq<Seq<char>>| #[trigger]
        order::is_sorted_copy::<String>(sorted, roles_in(v, v, user))
}

/// What is wrong with the roles that some tuples give a user: nothing, if one that
/// permits the action comes, in the order of their names, before any that there is
/// not.
pub open spec fn role_fault(v: Seq<TupleView>, user: Seq<char>, action: Seq<char>) -> Option<
    CoreErrorView,
> {
    match gather::any_role_allows(sorted_roles(v, user), action) {
        Ok(_) => None,
        Err(e) => Some(e),
    }
}

/// The roles are sorted, and no other list of them is.
pub proof fn lemma_roles_are_sorted(v: Seq<TupleView>, user: Seq<char>)
    ensures
        order::is_sorted_copy::<String>(sorted_roles(v, user), roles_in(v, v, user)),
        forall|sorted: Seq<Seq<char>>| #[trigger]
            order::is_sorted_copy::<String>(sorted, roles_in(v, v, user)) ==> sorted
                == sorted_roles(v, user),
{
    let all = roles_in(v, v, user);
    assert forall|a: Seq<char>, b: Seq<char>| #[trigger]
        String::rank(a) == #[trigger] String::rank(b) implies a == b by {
        assert(String::rank(a)[0] == a);
        assert(String::rank(b)[0] == b);
    }
    order::lemma_sorted_copy_exists::<String>(all);
    assert forall|sorted: Seq<Seq<char>>| #[trigger]
        order::is_sorted_copy::<String>(sorted, all) implies sorted == sorted_roles(v, user) by {
        order::lemma_sorted_copy_is_unique::<String>(sorted, sorted_roles(v, user));
    }
}

/// Fails where a role that there is not would decide what a user may do.
pub fn validate_snapshot_can_access_roles(tuples: &Vec<Tuple>, user_id: &str, action: &str) -> (r:
    Result<(), CoreError>)
    ensures
        match r {
            Ok(()) => role_fault(order::views(tuples@), user_id@, action@) is None,
            Err(e) => role_fault(order::views(tuples@), user_id@, action@) == Some(e@),
        },
{
    let ghost all = order::views(tuples@);
    let groups = reachable_group_ids_from_tuples(tuples, user_id);
    let mut roles: Vec<String> = Vec::new();
    let mut i: usize = 0;
    assert(order::views(roles@) =~= roles_in(all.take(0), all, user_id@));
    while i < tuples.len()
        invariant
            i <= tuples@.len(),
            all == order::views(tuples@),
            forall|g: Seq<char>| #[trigger]
                text::texts(groups@).contains(g) <==> reaches(all, user_id@, g),
            order::views(roles@) == roles_in(all.take(i as int), all, user_id@),
        decreases tuples@.len() - i,
    {
        let ghost before = order::views(roles@);
        let t = &tuples[i];
        assert(all.take(i + 1).drop_last() =~= all.take(i as int));
        assert(all.take(i + 1).last() == t@);
        if same(t.object_type.as_str(), "resource") {
            let counted = if same(t.subject_type.as_str(), "user") {
                proof {
                    reveal_strlit("user");
                    reveal_strlit("group");
                    assert("user"@.len() != "group"@.len());
                }
                same(t.subject_id.as_str(), user_id)
            } else if same(t.subject_type.as_str(), "group") {
                match strip_suffix(t.subject_id.as_str(), "#member") {
                    Some(group) => has_member(&groups, group.as_str()),
                    None => false,
                }
            } else {
                false
            };
            if counted {
                roles.push(t.relation.clone());
                assert(order::views(roles@) =~= before.push(t@.relation));
            }
        }
        i += 1;
    }
    assert(all.take(i as int) =~= all);
    let sorted = sort(roles);
    assert(order::views(sorted@) =~= text::texts(sorted@));
    proof {
        lemma_roles_are_sorted(all, user_id@);
    }
    match roles_allow(&sorted, action) {
        Ok(_) => Ok(()),
        Err(e) => Err(e),
    }
}

/// The groups that a user is in by some tuples are the objects of those that say so: a
/// group, with the user as a member.
pub proof fn law_groups_are_those_of_the_tuples(
    v: Seq<TupleView>,
    user: Seq<char>,
    group: Seq<char>,
)
    ensures
        groups_in(v, user).contains(group) <==> v.contains(
            (TupleView {
                object_type: "group"@,
                object_id: group,
                relation: "member"@,
                subject_type: "user"@,
                subject_id: user,
            }),
        ),
    decreases v.len(),
{
    if v.len() > 0 {
        let front = v.drop_last();
        law_groups_are_those_of_the_tuples(front, user, group);
        let before = groups_in(front, user);
        let t = TupleView {
            object_type: "group"@,
            object_id: group,
            relation: "member"@,
            subject_type: "user"@,
            subject_id: user,
        };
        lemma_contains_last(v, t);
        if let Some(g) = group_of(v.last(), user) {
            lemma_contains_last(before.push(g), group);
            assert(before.push(g).drop_last() =~= before);
        }
    }
}

/// The nestings by some tuples are those of the tuples that say so: a group, with the
/// members of another group as members.
pub proof fn law_nestings_are_those_of_the_tuples(
    v: Seq<TupleView>,
    member: Seq<char>,
    parent: Seq<char>,
)
    ensures
        nestings_in(v).contains((member, parent)) <==> v.contains(
            (TupleView {
                object_type: "group"@,
                object_id: parent,
                relation: "member"@,
                subject_type: "group"@,
                subject_id: member + "#member"@,
            }),
        ),
    decreases v.len(),
{
    if v.len() > 0 {
        let front = v.drop_last();
        law_nestings_are_those_of_the_tuples(front, member, parent);
        let before = nestings_in(front);
        let t = TupleView {
            object_type: "group"@,
            object_id: parent,
            relation: "member"@,
            subject_type: "group"@,
            subject_id: member + "#member"@,
        };
        lemma_contains_last(v, t);
        text::law_suffix_and_rest(v.last().subject_id, "#member"@, member);
        if let Some(e) = nesting_of(v.last()) {
            lemma_contains_last(before.push(e), (member, parent));
            assert(before.push(e).drop_last() =~= before);
            text::law_suffix_and_rest(v.last().subject_id, "#member"@, e.0);
            let a = choose|a: Seq<char>| v.last().subject_id == #[trigger] (a + "#member"@);
            text::law_suffix_and_rest(v.last().subject_id, "#member"@, a);
            assert(e.0 == a);
        }
    }
}

/// The roles that a user has by some tuples are the relations of those that reach the
/// user: a resource, with the user as its subject, or with the members of a group that
/// the user is in, directly or through other groups.
pub proof fn law_roles_are_those_of_the_tuples(
    s: Seq<TupleView>,
    v: Seq<TupleView>,
    user: Seq<char>,
    role: Seq<char>,
)
    ensures
        roles_in(s, v, user).contains(role) <==> exists|i: int|
            {
                &&& 0 <= i < s.len()
                &&& (#[trigger] s[i]).object_type == "resource"@
                &&& s[i].relation == role
                &&& {
                    ||| s[i].subject_type == "user"@ && s[i].subject_id == user
                    ||| s[i].subject_type == "group"@ && exists|g: Seq<char>|
                        s[i].subject_id == #[trigger] (g + "#member"@) && nesting::reached(
                            nestings_in(v),
                            groups_in(v, user),
                            g,
                        )
                }
            },
    decreases s.len(),
{
    if s.len() > 0 {
        let front = s.drop_last();
        law_roles_are_those_of_the_tuples(front, v, user, role);
        let before = roles_in(front, v, user);
        let t = s.last();
        assert(t == s[s.len() - 1]);
        assert forall|i: int| 0 <= i < front.len() implies front[i] == #[trigger] s[i] by {}
        assert(forall|i: int| 0 <= i < front.len() ==> s[i] == #[trigger] front[i]);
        assert forall|g: Seq<char>| t.subject_id == #[trigger] (g + "#member"@) implies text::without_suffix(
            t.subject_id,
            "#member"@,
        ) == Some(g) by {
            text::law_suffix_and_rest(t.subject_id, "#member"@, g);
        }
        text::law_suffix_and_rest(t.subject_id, "#member"@, Seq::empty());
        assert("user"@ != "group"@) by {
            reveal_strlit("user");
            reveal_strlit("group");
            assert("user"@.len() == 4);
            assert("group"@.len() == 5);
        }
        if let Some(r) = role_of(t, v, user) {
            lemma_contains_last(before.push(r), role);
            assert(before.push(r).drop_last() =~= before);
            assert(r == t.relation);
        }
    }
}

proof fn lemma_contains_last<A>(v: Seq<A>, x: A)
    requires
        v.len() > 0,
    ensures
        v.contains(x) <==> v.drop_last().contains(x) || v.last() == x,
{
    let front = v.drop_last();
    if v.contains(x) {
        let i = choose|i: int| 0 <= i < v.len() && v[i] == x;
        if i < front.len() {
            assert(front[i] == x);
        }
    }
    if front.contains(x) {
        let i = choose|i: int| 0 <= i < front.len() && front[i] == x;
        assert(v[i] == x);
    }
    assert(v[v.len() - 1] == v.last());
}

/// A grant is said by a tuple on the resource of its repository, with its role and the
/// user or the members of the group that it is to. Who is in a group, and which group,
/// is said by a tuple on the group.
pub proof fn law_tuples_say_what_the_rows_say(
    grant: GrantRowView,
    id: Seq<char>,
    row: (Seq<char>, Seq<char>),
)
    requires
        resource_id::is_repository_id(id),
        !text::has_prefix(id, "urc-"@),
        grant.repository_id == id,
    ensures
        ({
            let t = tuple_of_grant(grant);
            &&& t.object_type == "resource"@
            &&& t.object_id == "urc-"@ + id
            &&& t.relation == grant.role
            &&& t.subject_type == grant.subject_type
            &&& grant.subject_type == "group"@ ==> t.subject_id == grant.subject_id + "#member"@
            &&& grant.subject_type != "group"@ ==> t.subject_id == grant.subject_id
        }),
        tuple_of_user(row) == (TupleView {
            object_type: "group"@,
            object_id: row.0,
            relation: "member"@,
            subject_type: "user"@,
            subject_id: row.1,
        }),
        tuple_of_group(row) == (TupleView {
            object_type: "group"@,
            object_id: row.0,
            relation: "member"@,
            subject_type: "group"@,
            subject_id: row.1 + "#member"@,
        }),
{
    resource_id::law_resource_stands_for_its_repository(id);
}

/// Every grant there is has its tuple, in the order of the rows, and a repository without
/// a grant has none.
pub proof fn law_every_grant_has_its_tuple(
    rows: Seq<(Seq<char>, Option<GrantRowView>)>,
    more: (Seq<char>, Option<GrantRowView>),
)
    ensures
        grant_tuples(Seq::empty()).len() == 0,
        more.1 is None ==> grant_tuples(rows.push(more)) == grant_tuples(rows),
        more.1 matches Some(row) ==> grant_tuples(rows.push(more)) == grant_tuples(rows).push(
            tuple_of_grant(row),
        ),
{
    assert(rows.push(more).drop_last() =~= rows);
}

/// The roles of a user are no reason to refuse a question where all of them are known, and
/// what they are refused for is a role of the user that is not.
pub proof fn law_unknown_role_is_the_fault(v: Seq<TupleView>, user: Seq<char>, action: Seq<char>)
    ensures
        (forall|i: int|
            0 <= i < roles_in(v, v, user).len() ==> #[trigger] roles_in(v, v, user)[i]
                == "reader"@ || roles_in(v, v, user)[i] == "writer"@ || roles_in(v, v, user)[i]
                == "admin"@) ==> role_fault(v, user, action) is None,
        role_fault(v, user, action) matches Some(e) ==> exists|i: int|
            0 <= i < roles_in(v, v, user).len() && #[trigger] roles_in(v, v, user)[i]
                != "reader"@ && roles_in(v, v, user)[i] != "writer"@ && roles_in(v, v, user)[i]
                != "admin"@ && e == CoreErrorView::InvalidArgument(
                "unknown grant role "@ + text::debug_quoted(roles_in(v, v, user)[i]),
            ),
{
    let roles = roles_in(v, v, user);
    let sorted = sorted_roles(v, user);
    lemma_roles_are_sorted(v, user);
    assert(order::is_sorted_copy::<String>(sorted, roles));
    order::lemma_sorted_copy::<String>(sorted, roles);
    if let Some(e) = role_fault(v, user, action) {
        let n = gather::lemma_fault_is_a_role(sorted, action);
        assert(sorted.contains(sorted[n]));
        assert(roles.contains(sorted[n]));
        let i = choose|i: int| 0 <= i < roles.len() && roles[i] == sorted[n];
        assert(roles_in(v, v, user)[i] == sorted[n]);
    }
}

} // verus!
