//! The order in which each kind of value is listed.

use vstd::prelude::*;

use crate::email;
use crate::email::normalize_email;
use crate::model::{
    Grant, GrantEvidence, GrantEvidenceView, GrantView, Group, GroupView, Resource,
    ResourcePermission, ResourcePermissionView, ResourceView, User, UserView,
};
use crate::order;
use crate::order::{not_after, Ranked};
use crate::text;
use crate::text::same;

verus! {

/// Whether `a` may stand before `b`, by their strings one after the other.
fn keys_not_after(a: &Vec<String>, b: &Vec<String>) -> (r: bool)
    ensures
        r == order::keys_le(text::texts(a@), text::texts(b@)),
{
    let ghost x = text::texts(a@);
    let ghost y = text::texts(b@);
    let mut i: usize = 0;
    assert(x.skip(0) =~= x && y.skip(0) =~= y);
    while i < a.len() && i < b.len()
        invariant
            i <= a@.len(),
            i <= b@.len(),
            x == text::texts(a@),
            y == text::texts(b@),
            order::keys_le(x, y) == order::keys_le(x.skip(i as int), y.skip(i as int)),
        decreases a@.len() - i,
    {
        assert(x.skip(i as int)[0] == a@[i as int]@);
        assert(y.skip(i as int)[0] == b@[i as int]@);
        if !same(a[i].as_str(), b[i].as_str()) {
            return not_after(a[i].as_str(), b[i].as_str());
        }
        assert(x.skip(i as int).skip(1) =~= x.skip(i + 1));
        assert(y.skip(i as int).skip(1) =~= y.skip(i + 1));
        i += 1;
    }
    i == a.len()
}

fn keys1(a: &str) -> (r: Vec<String>)
    ensures
        text::texts(r@) == seq![a@],
{
    let mut out: Vec<String> = Vec::new();
    out.push(a.to_owned());
    out
}

fn keys2(a: &str, b: &str) -> (r: Vec<String>)
    ensures
        text::texts(r@) == seq![a@, b@],
{
    let mut out = keys1(a);
    let ghost before = text::texts(out@);
    out.push(b.to_owned());
    assert(text::texts(out@) =~= before.push(b@));
    out
}

fn keys4(a: &str, b: &str, c: &str, d: &str) -> (r: Vec<String>)
    ensures
        text::texts(r@) == seq![a@, b@, c@, d@],
{
    let mut out = keys2(a, b);
    let ghost before = text::texts(out@);
    out.push(c.to_owned());
    out.push(d.to_owned());
    assert(text::texts(out@) =~= before.push(c@).push(d@));
    out
}

impl Ranked for String {
    open spec fn rank(v: Seq<char>) -> Seq<Seq<char>> {
        seq![v]
    }

    fn may_precede(&self, other: &Self) -> (r: bool) {
        keys_not_after(&keys1(self.as_str()), &keys1(other.as_str()))
    }
}

/// Users by address, then by identifier.
impl Ranked for User {
    open spec fn rank(v: UserView) -> Seq<Seq<char>> {
        seq![email::normalized(v.email), v.id]
    }

    fn may_precede(&self, other: &Self) -> (r: bool) {
        keys_not_after(
            &keys2(normalize_email(self.email.as_str()).as_str(), self.id.as_str()),
            &keys2(normalize_email(other.email.as_str()).as_str(), other.id.as_str()),
        )
    }
}

/// Groups by name.
impl Ranked for Group {
    open spec fn rank(v: GroupView) -> Seq<Seq<char>> {
        seq![v.name]
    }

    fn may_precede(&self, other: &Self) -> (r: bool) {
        keys_not_after(&keys1(self.name.as_str()), &keys1(other.name.as_str()))
    }
}

/// Repositories by resource.
impl Ranked for Resource {
    open spec fn rank(v: ResourceView) -> Seq<Seq<char>> {
        seq![v.resource_id]
    }

    fn may_precede(&self, other: &Self) -> (r: bool) {
        keys_not_after(&keys1(self.resource_id.as_str()), &keys1(other.resource_id.as_str()))
    }
}

/// Permissions by resource.
impl Ranked for ResourcePermission {
    open spec fn rank(v: ResourcePermissionView) -> Seq<Seq<char>> {
        seq![v.resource_id]
    }

    fn may_precede(&self, other: &Self) -> (r: bool) {
        keys_not_after(&keys1(self.resource_id.as_str()), &keys1(other.resource_id.as_str()))
    }
}

/// Grants by repository, then by subject, then by role.
impl Ranked for Grant {
    open spec fn rank(v: GrantView) -> Seq<Seq<char>> {
        seq![v.repository_id, v.subject_type, v.subject_id, v.role]
    }

    fn may_precede(&self, other: &Self) -> (r: bool) {
        keys_not_after(
            &keys4(
                self.repository_id.as_str(),
                self.subject_type.as_str(),
                self.subject_id.as_str(),
                self.role.as_str(),
            ),
            &keys4(
                other.repository_id.as_str(),
                other.subject_type.as_str(),
                other.subject_id.as_str(),
                other.role.as_str(),
            ),
        )
    }
}

/// Evidence by path, then by subject, then by role.
impl Ranked for GrantEvidence {
    open spec fn rank(v: GrantEvidenceView) -> Seq<Seq<char>> {
        seq![v.path, v.subject_type, v.subject_id, v.role]
    }

    fn may_precede(&self, other: &Self) -> (r: bool) {
        keys_not_after(
            &keys4(
                self.path.as_str(),
                self.subject_type.as_str(),
                self.subject_id.as_str(),
                self.role.as_str(),
            ),
            &keys4(
                other.path.as_str(),
                other.subject_type.as_str(),
                other.subject_id.as_str(),
                other.role.as_str(),
            ),
        )
    }
}

/// What a list is in the order of: users by address in lower case, groups by name,
/// repositories and what is permitted on them by resource, grants by repository, and
/// evidence by the way that it describes.
pub proof fn law_what_lists_are_ordered_by(
    users: Seq<UserView>,
    groups: Seq<GroupView>,
    resources: Seq<ResourceView>,
    permitted: Seq<ResourcePermissionView>,
    grants: Seq<GrantView>,
    evidence: Seq<GrantEvidenceView>,
    texts: Seq<Seq<char>>,
    i: int,
    j: int,
)
    requires
        order::in_order::<User>(users),
        order::in_order::<Group>(groups),
        order::in_order::<Resource>(resources),
        order::in_order::<ResourcePermission>(permitted),
        order::in_order::<Grant>(grants),
        order::in_order::<GrantEvidence>(evidence),
        order::in_order::<String>(texts),
        0 <= i <= j,
    ensures
        j < users.len() ==> order::text_le(
            text::lower(text::trimmed(users[i].email)),
            text::lower(text::trimmed(users[j].email)),
        ),
        j < users.len() && text::lower(text::trimmed(users[i].email)) == text::lower(
            text::trimmed(users[j].email),
        ) ==> order::text_le(users[i].id, users[j].id),
        j < groups.len() ==> order::text_le(groups[i].name, groups[j].name),
        j < resources.len() ==> order::text_le(resources[i].resource_id, resources[j].resource_id),
        j < permitted.len() ==> order::text_le(permitted[i].resource_id, permitted[j].resource_id),
        j < texts.len() ==> order::text_le(texts[i], texts[j]),
        j < grants.len() ==> order::text_le(grants[i].repository_id, grants[j].repository_id),
        j < grants.len() && grants[i].repository_id == grants[j].repository_id ==> order::text_le(
            grants[i].subject_type,
            grants[j].subject_type,
        ),
        j < grants.len() && grants[i].repository_id == grants[j].repository_id
            && grants[i].subject_type == grants[j].subject_type ==> order::text_le(
            grants[i].subject_id,
            grants[j].subject_id,
        ),
        j < evidence.len() ==> order::text_le(evidence[i].path, evidence[j].path),
{
    if j < users.len() {
        lemma_ranked_two(<User as Ranked>::rank(users[i]), <User as Ranked>::rank(users[j]));
    }
    if j < groups.len() {
        lemma_ranked(<Group as Ranked>::rank(groups[i]), <Group as Ranked>::rank(groups[j]));
    }
    if j < resources.len() {
        lemma_ranked(
            <Resource as Ranked>::rank(resources[i]),
            <Resource as Ranked>::rank(resources[j]),
        );
    }
    if j < permitted.len() {
        lemma_ranked(
            <ResourcePermission as Ranked>::rank(permitted[i]),
            <ResourcePermission as Ranked>::rank(permitted[j]),
        );
    }
    if j < texts.len() {
        lemma_ranked(<String as Ranked>::rank(texts[i]), <String as Ranked>::rank(texts[j]));
    }
    if j < grants.len() {
        let a = <Grant as Ranked>::rank(grants[i]);
        let b = <Grant as Ranked>::rank(grants[j]);
        lemma_ranked_two(a, b);
        if a[0] == b[0] && a[1] == b[1] {
            lemma_ranked(a.skip(1).skip(1), b.skip(1).skip(1));
        }
    }
    if j < evidence.len() {
        lemma_ranked(
            <GrantEvidence as Ranked>::rank(evidence[i]),
            <GrantEvidence as Ranked>::rank(evidence[j]),
        );
    }
}

proof fn lemma_ranked(a: Seq<Seq<char>>, b: Seq<Seq<char>>)
    requires
        a.len() > 0,
        b.len() > 0,
        order::keys_le(a, b),
    ensures
        order::text_le(a[0], b[0]),
        a[0] == b[0] ==> order::keys_le(a.skip(1), b.skip(1)),
{
    order::lemma_text_le_total(a[0], b[0]);
}

proof fn lemma_ranked_two(a: Seq<Seq<char>>, b: Seq<Seq<char>>)
    requires
        a.len() > 1,
        b.len() > 1,
        order::keys_le(a, b),
    ensures
        order::text_le(a[0], b[0]),
        a[0] == b[0] ==> order::text_le(a[1], b[1]),
        a[0] == b[0] && a[1] == b[1] ==> order::keys_le(a.skip(1).skip(1), b.skip(1).skip(1)),
{
    lemma_ranked(a, b);
    if a[0] == b[0] {
        lemma_ranked(a.skip(1), b.skip(1));
    }
}

} // verus!
