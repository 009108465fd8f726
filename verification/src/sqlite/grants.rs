//! Grants, and how a user comes by them.

use vstd::prelude::*;

use crate::authz::gather;
use crate::authz::gather::unknown_role_error;
use crate::authz::query;
use crate::authz::query::SubjectKind;
use crate::error;
use crate::error::{invalid, CoreError, CoreErrorView};
use crate::model::{Grant, GrantEvidence, GrantEvidenceView, GrantView};
use crate::nesting;
use crate::nesting::GroupEdge;
use crate::order;
use crate::order::sort;
use crate::resource_id;
use crate::resource_id::ResourceID;
use crate::roles;
use crate::roles::is_known_role;
use crate::text;
use crate::text::{cat2, cat3, cat5, debug_text, has_member, same};
use crate::walk;
use crate::walk::describe;

verus! {

/// Fails for a role that there is not.
pub fn check_role(role: &str) -> (r: Result<(), CoreError>)
    ensures
        match r {
            Ok(()) => roles::role_named(role@) is Some,
            Err(e) => roles::role_named(role@) is None && e@ == gather::unknown_role(role@),
        },
{
    if is_known_role(role) {
        Ok(())
    } else {
        Err(unknown_role_error(role))
    }
}

/// The kind of subject of that name.
pub open spec fn kind_named(name: Seq<char>) -> Result<SubjectKind, CoreErrorView> {
    if name == "user"@ {
        Ok(SubjectKind::User)
    } else if name == "group"@ {
        Ok(SubjectKind::Group)
    } else {
        Err(
            CoreErrorView::InvalidArgument(
                "unknown grant subject_type "@ + text::debug_quoted(name),
            ),
        )
    }
}

/// The kind of subject of that name.
pub fn grant_subject_kind(subject_type: &str) -> (r: Result<SubjectKind, CoreError>)
    ensures
        match r {
            Ok(kind) => kind_named(subject_type@) == Ok::<SubjectKind, CoreErrorView>(kind),
            Err(e) => kind_named(subject_type@) == Err::<SubjectKind, _>(e@),
        },
{
    if same(subject_type, "user") {
        Ok(SubjectKind::User)
    } else if same(subject_type, "group") {
        Ok(SubjectKind::Group)
    } else {
        Err(
            invalid(
                cat2("unknown grant subject_type ", debug_text(subject_type).as_str()).as_str(),
            ),
        )
    }
}

/// The identifier of the subject of a grant, or that there is none of that name.
pub open spec fn subject_found(
    kind: SubjectKind,
    subject: Seq<char>,
    found: Result<Seq<char>, CoreErrorView>,
) -> Result<Seq<char>, CoreErrorView> {
    match found {
        Ok(id) => Ok(id),
        Err(_) => Err(
            CoreErrorView::InvalidArgument(
                "unknown grant "@ + query::kind_name(kind) + " "@ + text::debug_quoted(subject),
            ),
        ),
    }
}

/// The identifier of the subject of a grant, by what was found.
pub fn grant_subject_id(kind: SubjectKind, subject: &str, found: Result<String, CoreError>) -> (r:
    Result<String, CoreError>)
    ensures
        error::outcome(r) == subject_found(kind, subject@, error::outcome(found)),
{
    match found {
        Ok(id) => Ok(id),
        Err(_) => {
            let name = match kind {
                SubjectKind::User => "user",
                SubjectKind::Group => "group",
            };
            let left = cat3("unknown grant ", name, " ");
            Err(invalid(cat2(left.as_str(), debug_text(subject).as_str()).as_str()))
        },
    }
}

/// A new grant under this identifier.
pub fn new_grant_with_id(
    subject_type: &str,
    subject_id: String,
    repository_id: String,
    role: &str,
    id: String,
) -> (r: Grant)
    ensures
        r@ == (GrantView {
            id: id@,
            subject_type: subject_type@,
            subject_id: subject_id@,
            repository_id: repository_id@,
            role: role@,
        }),
{
    Grant {
        id,
        subject_type: subject_type.to_owned(),
        subject_id,
        repository_id,
        role: role.to_owned(),
    }
}

/// The identifier of the repository that a resource stands for.
pub open spec fn repository_key(resource: Seq<char>) -> Result<Seq<char>, CoreErrorView> {
    let id = resource_id::repository_of(text::trimmed(resource));
    if id.len() == 0 {
        Err(CoreErrorView::InvalidArgument("resource_id must not be empty"@))
    } else {
        Ok(id)
    }
}

/// The identifier of the repository that a resource stands for.
pub fn repository_key_of(resource_id: &str) -> (r: Result<String, CoreError>)
    ensures
        error::outcome(r) == repository_key(resource_id@),
{
    let id = ResourceID::repository_id_from_resource_id(resource_id.trim());
    if id.is_empty() {
        Err(invalid("resource_id must not be empty"))
    } else {
        Ok(id)
    }
}

/// A group and what it is called, or how a user comes to it.
#[derive(Debug, PartialEq, Eq)]
pub struct LabelRow {
    pub id: String,
    pub label: String,
}

impl View for LabelRow {
    type V = (Seq<char>, Seq<char>);

    open spec fn view(&self) -> (Seq<char>, Seq<char>) {
        (self.id@, self.label@)
    }
}

/// The last label of a group, if it has one.
pub open spec fn label_of(rows: Seq<(Seq<char>, Seq<char>)>, id: Seq<char>) -> Option<Seq<char>>
    decreases rows.len(),
{
    if rows.len() == 0 {
        None
    } else if rows.last().0 == id {
        Some(rows.last().1)
    } else {
        label_of(rows.drop_last(), id)
    }
}

/// The last label of a group, if it has one.
pub fn find_label(rows: &Vec<LabelRow>, id: &str) -> (r: Option<String>)
    ensures
        text::opt_text(r) == label_of(order::views(rows@), id@),
{
    let ghost all = order::views(rows@);
    let mut i: usize = rows.len();
    assert(all.take(i as int) =~= all);
    while i > 0
        invariant
            i <= rows@.len(),
            all == order::views(rows@),
            label_of(all, id@) == label_of(all.take(i as int), id@),
        decreases i,
    {
        assert(all.take(i as int).last() == rows@[i - 1]@);
        assert(all.take(i as int).drop_last() =~= all.take(i - 1));
        if same(rows[i - 1].id.as_str(), id) {
            return Some(rows[i - 1].label.clone());
        }
        i -= 1;
    }
    None
}

/// The groups that a user is directly in, of those that are to be looked at.
pub open spec fn starts(direct: Seq<(Seq<char>, Seq<char>)>, reachable: Seq<Seq<char>>) -> Seq<
    Seq<char>,
>
    decreases direct.len(),
{
    if direct.len() == 0 {
        Seq::empty()
    } else if reachable.contains(direct.last().0) {
        starts(direct.drop_last(), reachable).push(direct.last().0)
    } else {
        starts(direct.drop_last(), reachable)
    }
}

/// The nestings in groups that are to be looked at.
pub open spec fn arrows(
    edges: Seq<(Seq<char>, Seq<char>)>,
    reachable: Seq<Seq<char>>,
    nested: bool,
) -> Seq<(Seq<char>, Seq<char>)>
    decreases edges.len(),
{
    if edges.len() == 0 || !nested {
        Seq::empty()
    } else if reachable.contains(edges.last().1) {
        arrows(edges.drop_last(), reachable, nested).push(edges.last())
    } else {
        arrows(edges.drop_last(), reachable, nested)
    }
}

/// What the groups of a walk are called: those that the user is directly in as
/// they are listed, the others by name, or else by identifier.
pub open spec fn labels_of(
    v: Seq<(Seq<char>, Option<int>)>,
    direct: Seq<(Seq<char>, Seq<char>)>,
    names: Seq<(Seq<char>, Seq<char>)>,
) -> Seq<Seq<char>> {
    Seq::new(
        v.len(),
        |i: int|
            match label_of(
                if v[i].1 is None {
                    direct
                } else {
                    names
                },
                v[i].0,
            ) {
                Some(label) => label,
                None => v[i].0,
            },
    )
}

/// The groups of a walk and how the user comes to each.
pub open spec fn paths_of(
    v: Seq<(Seq<char>, Option<int>)>,
    direct: Seq<(Seq<char>, Seq<char>)>,
    names: Seq<(Seq<char>, Seq<char>)>,
) -> Seq<(Seq<char>, Seq<char>)> {
    Seq::new(v.len(), |i: int| (v[i].0, walk::way(v, labels_of(v, direct, names), i)))
}

/// How a user comes to each of the groups that are to be looked at: over the
/// fewest groups.
pub fn group_paths(
    direct: &Vec<LabelRow>,
    edges: &Vec<GroupEdge>,
    names: &Vec<LabelRow>,
    include_nested_groups: bool,
    reachable: &Vec<String>,
) -> (r: Vec<LabelRow>)
    ensures
        exists|v: Seq<(Seq<char>, Option<int>)>| #[trigger]
            walk::is_walk(
                starts(order::views(direct@), text::texts(reachable@)),
                arrows(
                    nesting::edges_of(edges@),
                    text::texts(reachable@),
                    include_nested_groups,
                ),
                v,
            ) && order::views(r@) == paths_of(v, order::views(direct@), order::views(names@)),
{
    let ghost given = order::views(direct@);
    let ghost known = order::views(names@);
    let ghost all = nesting::edges_of(edges@);
    let ghost wanted = text::texts(reachable@);
    let mut ids: Vec<String> = Vec::new();
    let mut i: usize = 0;
    assert(text::texts(ids@) =~= starts(given.take(0), wanted));
    while i < direct.len()
        invariant
            i <= direct@.len(),
            given == order::views(direct@),
            wanted == text::texts(reachable@),
            text::texts(ids@) == starts(given.take(i as int), wanted),
        decreases direct@.len() - i,
    {
        let ghost before = text::texts(ids@);
        assert(given.take(i + 1).drop_last() =~= given.take(i as int));
        assert(given.take(i + 1).last() == direct@[i as int]@);
        if has_member(reachable, direct[i].id.as_str()) {
            ids.push(direct[i].id.clone());
            assert(text::texts(ids@) =~= before.push(direct@[i as int]@.0));
        }
        i += 1;
    }
    assert(given.take(i as int) =~= given);
    let mut kept: Vec<GroupEdge> = Vec::new();
    assert(nesting::edges_of(kept@) =~= arrows(all.take(0), wanted, include_nested_groups));
    if include_nested_groups {
        let mut n: usize = 0;
        while n < edges.len()
            invariant
                n <= edges@.len(),
                all == nesting::edges_of(edges@),
                wanted == text::texts(reachable@),
                nesting::edges_of(kept@) == arrows(all.take(n as int), wanted, true),
            decreases edges@.len() - n,
        {
            let ghost before = nesting::edges_of(kept@);
            assert(all.take(n + 1).drop_last() =~= all.take(n as int));
            assert(all.take(n + 1).last() == edges@[n as int]@);
            if has_member(reachable, edges[n].parent.as_str()) {
                let edge = GroupEdge {
                    member: edges[n].member.clone(),
                    parent: edges[n].parent.clone(),
                };
                let ghost view = edge@;
                kept.push(edge);
                assert(nesting::edges_of(kept@) =~= before.push(view));
            }
            n += 1;
        }
        assert(all.take(n as int) =~= all);
    }
    assert(nesting::edges_of(kept@) == arrows(all, wanted, include_nested_groups));
    let found = walk::walk(&ids, &kept);
    let ghost v = walk::visits(found@);
    let mut labels: Vec<String> = Vec::new();
    let mut k: usize = 0;
    while k < found.len()
        invariant
            k <= found@.len(),
            v == walk::visits(found@),
            given == order::views(direct@),
            known == order::views(names@),
            labels@.len() == k,
            forall|j: int| 0 <= j < k ==> (#[trigger] labels@[j])@ == labels_of(v, given, known)[j],
        decreases found@.len() - k,
    {
        assert(v[k as int] == found@[k as int]@);
        let id = found[k].id.as_str();
        let label = if found[k].from.is_none() {
            find_label(direct, id)
        } else {
            find_label(names, id)
        };
        match label {
            Some(label) => labels.push(label),
            None => labels.push(id.to_owned()),
        }
        k += 1;
    }
    assert(text::texts(labels@) =~= labels_of(v, given, known));
    let ways = describe(&found, &labels);
    assert(ways@.len() == text::texts(ways@).len());
    let mut out: Vec<LabelRow> = Vec::new();
    let mut m: usize = 0;
    while m < found.len()
        invariant
            m <= found@.len(),
            v == walk::visits(found@),
            ways@.len() == found@.len(),
            text::texts(ways@) == walk::ways(v, labels_of(v, given, known)),
            out@.len() == m,
            forall|j: int| 0 <= j < m ==> (#[trigger] out@[j])@ == paths_of(v, given, known)[j],
        decreases found@.len() - m,
    {
        assert(v[m as int] == found@[m as int]@);
        assert(text::texts(ways@)[m as int] == ways@[m as int]@);
        out.push(LabelRow { id: found[m].id.clone(), label: ways[m].clone() });
        m += 1;
    }
    assert(order::views(out@) =~= paths_of(v, given, known));
    out
}

/// A grant to a user or a group, and what the subject is called.
#[derive(Debug, PartialEq, Eq)]
pub struct EvidenceRow {
    pub subject_type: String,
    pub subject_id: String,
    pub subject_name: String,
    pub role: String,
}

/// The view of [`EvidenceRow`].
#[verifier::ext_equal]
pub struct EvidenceRowView {
    pub subject_type: Seq<char>,
    pub subject_id: Seq<char>,
    pub subject_name: Seq<char>,
    pub role: Seq<char>,
}

impl View for EvidenceRow {
    type V = EvidenceRowView;

    open spec fn view(&self) -> EvidenceRowView {
        EvidenceRowView {
            subject_type: self.subject_type@,
            subject_id: self.subject_id@,
            subject_name: self.subject_name@,
            role: self.role@,
        }
    }
}

/// A grant to the user, as evidence.
pub open spec fn own_evidence(user_label: Seq<char>, row: EvidenceRowView) -> GrantEvidenceView {
    GrantEvidenceView {
        subject_type: row.subject_type,
        subject_id: row.subject_id,
        subject_name: row.subject_name,
        role: row.role,
        path: "user:"@ + user_label + " -> grant"@,
    }
}

/// A grant to a group that the user is in, as evidence.
pub open spec fn group_evidence(
    user_label: Seq<char>,
    row: EvidenceRowView,
    paths: Seq<(Seq<char>, Seq<char>)>,
) -> GrantEvidenceView {
    GrantEvidenceView {
        subject_type: row.subject_type,
        subject_id: row.subject_id,
        subject_name: row.subject_name,
        role: row.role,
        path: "user:"@ + user_label + " -> "@ + match label_of(paths, row.subject_id) {
            Some(path) => path,
            None => row.subject_name,
        } + " -> grant"@,
    }
}

/// All the evidence, the user's own first.
pub open spec fn evidence_of(
    user_label: Seq<char>,
    own: Seq<EvidenceRowView>,
    by_group: Seq<EvidenceRowView>,
    paths: Seq<(Seq<char>, Seq<char>)>,
) -> Seq<GrantEvidenceView> {
    Seq::new(own.len(), |i: int| own_evidence(user_label, own[i])) + Seq::new(
        by_group.len(),
        |i: int| group_evidence(user_label, by_group[i], paths),
    )
}

/// How a user comes by roles on a repository, in order.
pub fn grant_evidence(
    user_label: &str,
    own: &Vec<EvidenceRow>,
    by_group: &Vec<EvidenceRow>,
    paths: &Vec<LabelRow>,
) -> (r: Vec<GrantEvidence>)
    ensures
        order::is_sorted_copy::<GrantEvidence>(
            order::views(r@),
            evidence_of(
                user_label@,
                order::views(own@),
                order::views(by_group@),
                order::views(paths@),
            ),
        ),
{
    let ghost ways = order::views(paths@);
    let mut out: Vec<GrantEvidence> = Vec::new();
    let mut i: usize = 0;
    while i < own.len()
        invariant
            i <= own@.len(),
            out@.len() == i,
            forall|j: int| 0 <= j < i ==> (#[trigger] out@[j])@ == own_evidence(user_label@, own@[j]@),
        decreases own@.len() - i,
    {
        out.push(
            GrantEvidence {
                subject_type: own[i].subject_type.clone(),
                subject_id: own[i].subject_id.clone(),
                subject_name: own[i].subject_name.clone(),
                role: own[i].role.clone(),
                path: cat3("user:", user_label, " -> grant"),
            },
        );
        i += 1;
    }
    let mut n: usize = 0;
    while n < by_group.len()
        invariant
            n <= by_group@.len(),
            ways == order::views(paths@),
            out@.len() == own@.len() + n,
            forall|j: int|
                0 <= j < own@.len() ==> (#[trigger] out@[j])@ == own_evidence(user_label@, own@[j]@),
            forall|j: int|
                own@.len() <= j < own@.len() + n ==> (#[trigger] out@[j])@ == group_evidence(
                    user_label@,
                    by_group@[j - own@.len()]@,
                    ways,
                ),
        decreases by_group@.len() - n,
    {
        let row = &by_group[n];
        let path = match find_label(paths, row.subject_id.as_str()) {
            Some(path) => path,
            None => row.subject_name.clone(),
        };
        out.push(
            GrantEvidence {
                subject_type: row.subject_type.clone(),
                subject_id: row.subject_id.clone(),
                subject_name: row.subject_name.clone(),
                role: row.role.clone(),
                path: cat5("user:", user_label, " -> ", path.as_str(), " -> grant"),
            },
        );
        n += 1;
    }
    assert(order::views(out@) =~= evidence_of(
        user_label@,
        order::views(own@),
        order::views(by_group@),
        ways,
    ));
    sort(out)
}

/// The groups that a user is in, from what was read.
pub const NESTED_GROUPS_SQL: &'static str = "WITH RECURSIVE user_groups(group_id) AS (
           SELECT group_id FROM group_members WHERE user_id = ?1
           UNION
           SELECT gg.group_id
           FROM group_groups gg
           JOIN user_groups ug ON gg.member_group_id = ug.group_id
         )
         SELECT group_id FROM user_groups";

/// The groups that a user is directly in.
pub const DIRECT_GROUPS_SQL: &'static str = "SELECT group_id FROM group_members WHERE user_id = ?1";

/// The query for the groups that a user is in.
pub fn user_groups_sql(include_nested_groups: bool) -> (r: &'static str)
    ensures
        r@ == if include_nested_groups {
            NESTED_GROUPS_SQL@
        } else {
            DIRECT_GROUPS_SQL@
        },
{
    if include_nested_groups {
        NESTED_GROUPS_SQL
    } else {
        DIRECT_GROUPS_SQL
    }
}

/// Where every group that a user is in is to be looked at, each of them has a
/// path, and no other group has one.
pub proof fn law_every_group_has_a_path(
    direct: Seq<(Seq<char>, Seq<char>)>,
    edges: Seq<(Seq<char>, Seq<char>)>,
    names: Seq<(Seq<char>, Seq<char>)>,
    reachable: Seq<Seq<char>>,
    v: Seq<(Seq<char>, Option<int>)>,
    group: Seq<char>,
)
    requires
        walk::is_walk(starts(direct, reachable), arrows(edges, reachable, true), v),
        forall|g: Seq<char>| #[trigger]
            reachable.contains(g) <==> nesting::reached(
                edges,
                Seq::new(direct.len(), |i: int| direct[i].0),
                g,
            ),
    ensures
        label_of(paths_of(v, direct, names), group) is Some <==> reachable.contains(group),
{
    let ids = Seq::new(direct.len(), |i: int| direct[i].0);
    let s = starts(direct, reachable);
    let a = arrows(edges, reachable, true);
    lemma_starts(direct, reachable);
    lemma_arrows(edges, reachable);
    assert forall|d: Seq<char>| ids.contains(d) implies s.contains(d) by {
        nesting::lemma_inside_reflexive(edges, d);
        assert(nesting::reached(edges, ids, d));
        assert(reachable.contains(d));
    }
    walk::law_walk_finds_what_is_reached(s, a, v, group);
    if reachable.contains(group) {
        assert(nesting::reached(edges, ids, group));
        let d = choose|d: Seq<char>|
            ids.contains(d) && #[trigger] nesting::inside(edges, d, group);
        let path = choose|path: Seq<Seq<char>>| nesting::leads(edges, path, d, group);
        lemma_chain_is_kept(edges, ids, reachable, path);
        assert(nesting::leads(a, path, d, group));
        assert(nesting::inside(a, d, group));
        assert(nesting::reached(a, s, group));
    }
    if walk::seen(v, group) {
        assert(nesting::reached(a, s, group));
        let d = choose|d: Seq<char>| s.contains(d) && #[trigger] nesting::inside(a, d, group);
        nesting::lemma_inside_monotone(a, edges, d, group);
        assert(ids.contains(d));
        assert(nesting::reached(edges, ids, group));
    }
    lemma_label_of_paths(v, direct, names, group);
}

proof fn lemma_starts(direct: Seq<(Seq<char>, Seq<char>)>, reachable: Seq<Seq<char>>)
    ensures
        forall|d: Seq<char>| #[trigger]
            starts(direct, reachable).contains(d) <==> reachable.contains(d) && Seq::new(
                direct.len(),
                |i: int| direct[i].0,
            ).contains(d),
    decreases direct.len(),
{
    let ids = Seq::new(direct.len(), |i: int| direct[i].0);
    let s = starts(direct, reachable);
    if direct.len() > 0 {
        let front = direct.drop_last();
        let front_ids = Seq::new(front.len(), |i: int| front[i].0);
        lemma_starts(front, reachable);
        let before = starts(front, reachable);
        let last = direct.last().0;
        assert(ids =~= front_ids.push(last));
        assert forall|d: Seq<char>| #[trigger]
            s.contains(d) <==> reachable.contains(d) && ids.contains(d) by {
            lemma_push_contains(front_ids, last, d);
            lemma_push_contains(before, last, d);
            assert(before.contains(d) <==> reachable.contains(d) && front_ids.contains(d));
        }
    } else {
        assert(s =~= Seq::<Seq<char>>::empty());
    }
}

proof fn lemma_push_contains<T>(s: Seq<T>, x: T, y: T)
    ensures
        s.push(x).contains(y) <==> s.contains(y) || x == y,
{
    let p = s.push(x);
    if s.contains(y) {
        let i = choose|i: int| 0 <= i < s.len() && s[i] == y;
        assert(p[i] == y);
    }
    assert(p[s.len() as int] == x);
    if p.contains(y) {
        let i = choose|i: int| 0 <= i < p.len() && p[i] == y;
        if i < s.len() {
            assert(s[i] == y);
        }
    }
}

proof fn lemma_arrows(edges: Seq<(Seq<char>, Seq<char>)>, reachable: Seq<Seq<char>>)
    ensures
        forall|e: (Seq<char>, Seq<char>)| #[trigger]
            arrows(edges, reachable, true).contains(e) <==> edges.contains(e) && reachable.contains(
                e.1,
            ),
    decreases edges.len(),
{
    let a = arrows(edges, reachable, true);
    if edges.len() > 0 {
        let front = edges.drop_last();
        let last = edges.last();
        lemma_arrows(front, reachable);
        let before = arrows(front, reachable, true);
        assert(edges =~= front.push(last));
        assert forall|e: (Seq<char>, Seq<char>)| #[trigger]
            a.contains(e) <==> edges.contains(e) && reachable.contains(e.1) by {
            lemma_push_contains(front, last, e);
            lemma_push_contains(before, last, e);
            assert(before.contains(e) <==> front.contains(e) && reachable.contains(e.1));
        }
    } else {
        assert(a =~= Seq::<(Seq<char>, Seq<char>)>::empty());
    }
}

proof fn lemma_chain_is_kept(
    edges: Seq<(Seq<char>, Seq<char>)>,
    ids: Seq<Seq<char>>,
    reachable: Seq<Seq<char>>,
    path: Seq<Seq<char>>,
)
    requires
        nesting::is_chain(edges, path),
        ids.contains(path[0]),
        forall|g: Seq<char>| #[trigger]
            reachable.contains(g) <==> nesting::reached(edges, ids, g),
    ensures
        nesting::is_chain(arrows(edges, reachable, true), path),
{
    let a = arrows(edges, reachable, true);
    lemma_arrows(edges, reachable);
    assert forall|i: int| 0 <= i < path.len() - 1 implies #[trigger] nesting::is_step(
        a,
        path,
        i,
    ) by {
        assert(nesting::is_step(edges, path, i));
        let upper = path.take(i + 2);
        assert forall|j: int| 0 <= j < upper.len() - 1 implies #[trigger] nesting::is_step(
            edges,
            upper,
            j,
        ) by {
            assert(nesting::is_step(edges, path, j));
        }
        assert(nesting::leads(edges, upper, path[0], path[i + 1]));
        assert(nesting::inside(edges, path[0], path[i + 1]));
        assert(nesting::reached(edges, ids, path[i + 1]));
        assert(reachable.contains(path[i + 1]));
        assert(a.contains((path[i], path[i + 1])));
    }
}

proof fn lemma_label_of_paths(
    v: Seq<(Seq<char>, Option<int>)>,
    direct: Seq<(Seq<char>, Seq<char>)>,
    names: Seq<(Seq<char>, Seq<char>)>,
    group: Seq<char>,
)
    ensures
        label_of(paths_of(v, direct, names), group) is Some <==> walk::seen(v, group),
{
    let paths = paths_of(v, direct, names);
    lemma_label_is_there(paths, group);
    if walk::seen(v, group) {
        let i = choose|i: int| 0 <= i < v.len() && (#[trigger] v[i]).0 == group;
        assert(paths[i].0 == group);
    }
    if exists|i: int| 0 <= i < paths.len() && (#[trigger] paths[i]).0 == group {
        let i = choose|i: int| 0 <= i < paths.len() && (#[trigger] paths[i]).0 == group;
        assert(v[i].0 == group);
    }
}

proof fn lemma_label_is_there(rows: Seq<(Seq<char>, Seq<char>)>, id: Seq<char>)
    ensures
        label_of(rows, id) is Some <==> exists|i: int|
            0 <= i < rows.len() && (#[trigger] rows[i]).0 == id,
    decreases rows.len(),
{
    if rows.len() > 0 {
        let front = rows.drop_last();
        lemma_label_is_there(front, id);
        if exists|i: int| 0 <= i < front.len() && (#[trigger] front[i]).0 == id {
            let i = choose|i: int| 0 <= i < front.len() && (#[trigger] front[i]).0 == id;
            assert(rows[i].0 == id);
        }
        if exists|i: int| 0 <= i < rows.len() && (#[trigger] rows[i]).0 == id {
            let i = choose|i: int| 0 <= i < rows.len() && (#[trigger] rows[i]).0 == id;
            if i < front.len() {
                assert(front[i].0 == id);
            }
        }
        if rows.last().0 == id {
            assert(rows[rows.len() - 1].0 == id);
        }
    }
}

proof fn lemma_label_is_listed(rows: Seq<(Seq<char>, Seq<char>)>, id: Seq<char>)
    ensures
        label_of(rows, id) matches Some(label) ==> exists|i: int|
            0 <= i < rows.len() && #[trigger] rows[i] == (id, label),
    decreases rows.len(),
{
    if rows.len() > 0 {
        if rows.last().0 == id {
            assert(rows[rows.len() - 1] == (id, rows.last().1));
        } else {
            let front = rows.drop_last();
            lemma_label_is_listed(front, id);
            if let Some(label) = label_of(front, id) {
                let i = choose|i: int|
                    0 <= i < front.len() && #[trigger] front[i] == (id, label);
                assert(rows[i] == front[i]);
            }
        }
    }
}

/// What a group is called: by name, or else by identifier.
pub open spec fn called(names: Seq<(Seq<char>, Seq<char>)>, group: Seq<char>) -> Seq<char> {
    match label_of(names, group) {
        Some(name) => name,
        None => group,
    }
}

/// Whether `chain` leads from one of some groups up to a group over the fewest
/// groups, and `path` tells what the groups on the way are called.
pub open spec fn explains(
    chain: Seq<Seq<char>>,
    ids: Seq<Seq<char>>,
    edges: Seq<(Seq<char>, Seq<char>)>,
    names: Seq<(Seq<char>, Seq<char>)>,
    group: Seq<char>,
    path: Seq<char>,
) -> bool {
    &&& nesting::is_chain(edges, chain)
    &&& ids.contains(chain[0])
    &&& chain.last() == group
    &&& path == text::joined(chain.map_values(|g: Seq<char>| called(names, g)), " -> "@)
    &&& forall|other: Seq<Seq<char>>| #[trigger]
        nesting::is_chain(edges, other) && ids.contains(other[0]) && other.last() == group
            ==> chain.len() <= other.len()
}

/// Whether `path` tells of a way to a group over the fewest groups.
pub open spec fn is_shortest_way(
    ids: Seq<Seq<char>>,
    edges: Seq<(Seq<char>, Seq<char>)>,
    names: Seq<(Seq<char>, Seq<char>)>,
    group: Seq<char>,
    path: Seq<char>,
) -> bool {
    exists|chain: Seq<Seq<char>>| explains(chain, ids, edges, names, group, path)
}

/// Where every group that a user is in is to be looked at, each of them has exactly
/// one path, and no other group has one. A path tells what the groups are called on
/// a way from a group that the user is directly in, each directly inside the next,
/// over the fewest groups; that of a group that the user is directly in is what the
/// group is called.
pub proof fn law_paths_are_the_shortest_ways(
    direct: Seq<(Seq<char>, Seq<char>)>,
    edges: Seq<(Seq<char>, Seq<char>)>,
    names: Seq<(Seq<char>, Seq<char>)>,
    reachable: Seq<Seq<char>>,
    v: Seq<(Seq<char>, Option<int>)>,
)
    requires
        walk::is_walk(starts(direct, reachable), arrows(edges, reachable, true), v),
        forall|g: Seq<char>| #[trigger]
            reachable.contains(g) <==> nesting::reached(
                edges,
                Seq::new(direct.len(), |i: int| direct[i].0),
                g,
            ),
        forall|i: int|
            0 <= i < direct.len() ==> (#[trigger] direct[i]).1 == called(names, direct[i].0),
    ensures
        ({
            let paths = paths_of(v, direct, names);
            let ids = Seq::new(direct.len(), |i: int| direct[i].0);
            &&& forall|g: Seq<char>| #[trigger]
                reachable.contains(g) <==> label_of(paths, g) is Some
            &&& forall|i: int, j: int|
                0 <= i < j < paths.len() ==> (#[trigger] paths[i]).0 != (#[trigger] paths[j]).0
            &&& forall|i: int|
                0 <= i < paths.len() ==> is_shortest_way(
                    ids,
                    edges,
                    names,
                    (#[trigger] paths[i]).0,
                    paths[i].1,
                )
            &&& forall|i: int|
                0 <= i < paths.len() && ids.contains((#[trigger] paths[i]).0) ==> paths[i].1
                    == called(names, paths[i].0)
        }),
{
    let paths = paths_of(v, direct, names);
    let ids = Seq::new(direct.len(), |i: int| direct[i].0);
    let s = starts(direct, reachable);
    let a = arrows(edges, reachable, true);
    let labels = labels_of(v, direct, names);
    let named = Map::new(|g: Seq<char>| true, |g: Seq<char>| called(names, g));
    lemma_starts(direct, reachable);
    lemma_arrows(edges, reachable);
    assert forall|d: Seq<char>| ids.contains(d) implies s.contains(d) by {
        nesting::lemma_inside_reflexive(edges, d);
        assert(nesting::reached(edges, ids, d));
        assert(reachable.contains(d));
    }
    assert forall|g: Seq<char>| #[trigger] reachable.contains(g) <==> label_of(
        paths,
        g,
    ) is Some by {
        law_every_group_has_a_path(direct, edges, names, reachable, v, g);
    }
    assert forall|i: int, j: int| 0 <= i < j < paths.len() implies (#[trigger] paths[i]).0 != (
    #[trigger] paths[j]).0 by {
        if v[i].0 == v[j].0 {
            walk::law_walk_has_no_repeats(s, a, v, i, j);
        }
    }
    assert forall|k: int| 0 <= k < v.len() implies (#[trigger] labels[k]) == named[v[k].0] by {
        if v[k].1 is None {
            walk::law_trail_is_a_chain(s, a, v, k);
            assert(walk::trail(v, k) =~= seq![v[k].0]);
            assert(ids.contains(v[k].0));
            let at = choose|at: int| 0 <= at < ids.len() && ids[at] == v[k].0;
            assert(direct[at].0 == v[k].0);
            lemma_label_is_there(direct, v[k].0);
            lemma_label_is_listed(direct, v[k].0);
        }
    }
    assert forall|i: int| 0 <= i < paths.len() implies is_shortest_way(
        ids,
        edges,
        names,
        (#[trigger] paths[i]).0,
        paths[i].1,
    ) && (ids.contains(paths[i].0) ==> paths[i].1 == called(names, paths[i].0)) by {
        let chain = walk::trail(v, i);
        walk::law_trail_is_a_chain(s, a, v, i);
        assert forall|k: int| 0 <= k < chain.len() - 1 implies #[trigger] nesting::is_step(
            edges,
            chain,
            k,
        ) by {
            assert(nesting::is_step(a, chain, k));
        }
        walk::law_way_follows_the_trail(v, named, labels, i);
        assert(chain.map_values(|id: Seq<char>| named[id]) =~= chain.map_values(
            |g: Seq<char>| called(names, g),
        ));
        assert forall|other: Seq<Seq<char>>| #[trigger]
            nesting::is_chain(edges, other) && ids.contains(other[0]) && other.last()
                == paths[i].0 implies chain.len() <= other.len() by {
            lemma_chain_is_kept(edges, ids, reachable, other);
            walk::law_trail_is_shortest(s, a, v, i, other);
        }
        assert(explains(chain, ids, edges, names, paths[i].0, paths[i].1));
        if ids.contains(paths[i].0) {
            let alone = seq![paths[i].0];
            assert(nesting::is_chain(edges, alone));
            assert(chain =~= alone);
            let told = chain.map_values(|g: Seq<char>| called(names, g));
            assert(told.len() == 1 && told[0] == called(names, paths[i].0));
            assert(told.drop_last() =~= Seq::<Seq<char>>::empty());
        }
    }
}

} // verus!
