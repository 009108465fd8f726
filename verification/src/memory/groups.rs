//! Groups, who is in them, and groups inside groups.

use vstd::prelude::*;

use crate::error::{invalid, CoreError, CoreErrorView};
use crate::ids;
use crate::ids::new_id;
use crate::memory::{Store, StoreView, TextList};
use crate::model::{Group, GroupView, User, UserView};
use crate::nesting;
use crate::nesting::GroupEdge;
use crate::order;
use crate::order::sort;
use crate::table;
use crate::table::Pick;
use crate::text;
use crate::text::{drop_text, has_member, is_blank, same};
use crate::walk::is_inside;

verus! {

/// The group that is made of a name and a description.
pub open spec fn new_group(name: Seq<char>, description: Seq<char>, id: Seq<char>) -> GroupView {
    GroupView { id, name: text::trimmed(name), description }
}

/// Why there can be no group of that name; none where there can.
pub open spec fn group_refusal(name: Seq<char>) -> Option<CoreErrorView> {
    if text::trimmed(name).len() == 0 {
        Some(CoreErrorView::InvalidArgument("group name must not be empty"@))
    } else {
        None
    }
}

impl StoreView {
    /// The store with a group, in place of one with the same name.
    pub open spec fn with_group(self, group: GroupView) -> StoreView {
        StoreView { groups: self.groups.insert(group.name, group), ..self }
    }

    /// The store with the groups of a user changed.
    pub open spec fn with_member_list(self, user: Seq<char>, list: Seq<Seq<char>>) -> StoreView {
        StoreView { group_members: self.group_members.insert(user, list), ..self }
    }

    /// The store once a user was put into a group.
    pub open spec fn with_member(self, user: Seq<char>, group: Seq<char>) -> StoreView {
        self.with_member_list(user, self.member_list(user).push(group))
    }

    /// The store once a user was taken out of a group.
    pub open spec fn without_member(self, user: Seq<char>, group: Seq<char>) -> StoreView {
        if self.group_members.contains_key(user) {
            self.with_member_list(user, text::without(self.group_members[user], group))
        } else {
            self
        }
    }

    /// The inner and the outer group that are meant.
    pub open spec fn nested_pair(self, parent: Seq<char>, member: Seq<char>) -> Result<
        (Seq<char>, Seq<char>),
        CoreErrorView,
    > {
        match self.group_id(parent) {
            Err(e) => Err(e),
            Ok(p) => match self.group_id(member) {
                Err(e) => Err(e),
                Ok(m) => Ok((m, p)),
            },
        }
    }

    /// Why a group cannot be put into another; none where it can, or is there already.
    pub open spec fn nesting_refusal(self, parent: Seq<char>, member: Seq<char>) -> Option<
        CoreErrorView,
    > {
        match self.nested_pair(parent, member) {
            Err(e) => Some(e),
            Ok((m, p)) => if p == m {
                Some(CoreErrorView::InvalidArgument("group cannot contain itself"@))
            } else if self.group_groups.contains((m, p)) {
                None
            } else if nesting::inside(self.group_groups, p, m) {
                Some(CoreErrorView::InvalidArgument("group nesting would create a cycle"@))
            } else {
                None
            },
        }
    }

    /// Whether a group is directly inside another already.
    pub open spec fn is_nested(self, parent: Seq<char>, member: Seq<char>) -> bool {
        self.nested_pair(parent, member) matches Ok(e) && self.group_groups.contains(e)
    }

    /// The store once a group was put into another.
    pub open spec fn after_nesting(self, parent: Seq<char>, member: Seq<char>) -> StoreView {
        match self.nested_pair(parent, member) {
            Ok(e) => if self.group_groups.contains(e) {
                self
            } else {
                StoreView { group_groups: self.group_groups.push(e), ..self }
            },
            Err(_) => self,
        }
    }

    /// Whether `after` is the store once a group was taken out of another.
    pub open spec fn is_after_unnesting(
        self,
        parent: Seq<char>,
        member: Seq<char>,
        after: StoreView,
    ) -> bool {
        exists|at: int|
            0 <= at < self.group_groups.len() && self.nested_pair(parent, member) == Ok::<
                (Seq<char>, Seq<char>),
                CoreErrorView,
            >(#[trigger] self.group_groups[at]) && after == (StoreView {
                group_groups: self.group_groups.remove(at),
                ..self
            })
    }

    /// The users who were put into the group `n`, by its name or its identifier,
    /// and are not deleted.
    pub open spec fn members(self, n: Seq<char>) -> Set<UserView> {
        Set::new(
            |u: UserView|
                {
                    &&& self.users.contains_key(u.id)
                    &&& self.users[u.id] == u
                    &&& u.status != "deleted"@
                    &&& self.is_member(n, u.id)
                },
        )
    }

    /// Whether a user was put into the group `n`, by its name or its identifier.
    pub open spec fn is_member(self, n: Seq<char>, user: Seq<char>) -> bool {
        ||| self.member_list(user).contains(self.groups[n].id)
        ||| self.member_list(user).contains(self.groups[n].name)
    }

    /// All groups.
    pub open spec fn all_groups(self) -> Set<GroupView> {
        Set::new(|g: GroupView| self.groups.contains_key(g.name) && self.groups[g.name] == g)
    }

    /// Whether `out` lists the groups directly inside the group with the
    /// identifier `id`, one for each identifier.
    pub open spec fn lists_nested(self, id: Seq<char>, out: Seq<GroupView>) -> bool {
        &&& order::in_order::<Group>(out)
        &&& forall|i: int|
            0 <= i < out.len() ==> {
                &&& self.all_groups().contains(#[trigger] out[i])
                &&& self.group_groups.contains((out[i].id, id))
            }
        &&& forall|i: int, j: int|
            0 <= i < out.len() && 0 <= j < out.len() && (#[trigger] out[i]).id == (
            #[trigger] out[j]).id ==> i == j
        &&& forall|m: Seq<char>|
            self.has_group_id(m) && #[trigger] self.group_groups.contains((m, id)) ==> exists|i: int|
                0 <= i < out.len() && (#[trigger] out[i]).id == m
    }
}

/// Who is asked for: users with one of the identifiers who are not deleted.
struct MemberQuery {
    ids: Vec<String>,
}

impl Pick<User> for MemberQuery {
    closed spec fn picks(&self, v: UserView) -> bool {
        v.status != "deleted"@ && text::texts(self.ids@).contains(v.id)
    }

    fn pick(&self, v: &User) -> (r: bool) {
        !same(v.status.as_str(), "deleted") && has_member(&self.ids, v.id.as_str())
    }
}

/// What is asked for: every group.
struct AnyGroup;

impl Pick<Group> for AnyGroup {
    closed spec fn picks(&self, v: GroupView) -> bool {
        true
    }

    fn pick(&self, v: &Group) -> (r: bool) {
        true
    }
}

impl Store {
    /// Puts a group into the store, in place of one with the same name.
    pub(crate) fn put_group(&mut self, group: Group)
        requires
            old(self).wf(),
        ensures
            final(self).wf(),
            final(self)@ == old(self)@.with_group(group@),
    {
        let ghost before = self@;
        let ghost view = group@;
        self.groups.insert(group.name.clone(), group);
        assert(self@ =~= before.with_group(view));
    }

    /// Adds a group with the identifier `id`.
    pub fn add_group_with_id(&mut self, name: &str, description: &str, id: String) -> (r: Result<
        Group,
        CoreError,
    >)
        requires
            old(self).wf(),
        ensures
            final(self).wf(),
            match r {
                Ok(group) => group_refusal(name@) is None && group@ == new_group(
                    name@,
                    description@,
                    id@,
                ) && final(self)@ == old(self)@.with_group(group@),
                Err(e) => group_refusal(name@) == Some(e@) && final(self)@ == old(self)@,
            },
    {
        if is_blank(name) {
            return Err(invalid("group name must not be empty"));
        }
        let group = Group {
            id,
            name: name.trim().to_owned(),
            description: description.to_owned(),
        };
        self.put_group(group.clone());
        Ok(group)
    }

    /// Adds a group.
    pub fn add_group(&mut self, name: &str, description: &str) -> (r: Result<Group, CoreError>)
        requires
            old(self).wf(),
        ensures
            final(self).wf(),
            match r {
                Ok(group) => group_refusal(name@) is None && ids::is_uuid(group@.id) && group@
                    == new_group(name@, description@, group@.id) && final(self)@
                    == old(self)@.with_group(group@),
                Err(e) => group_refusal(name@) == Some(e@) && final(self)@ == old(self)@,
            },
    {
        let id = new_id();
        self.add_group_with_id(name, description, id)
    }

    /// Puts a user into a group.
    pub fn add_group_member(&mut self, group: &str, who: &str) -> (r: Result<(), CoreError>)
        requires
            old(self).wf(),
        ensures
            final(self).wf(),
            match r {
                Ok(_) => exists|k: Seq<char>| #[trigger]
                    old(self)@.is_user(k, who@) && final(self)@ == old(self)@.with_member(k, group@),
                Err(e) => e@ == CoreErrorView::NotFound && !old(self)@.has_user(who@)
                    && final(self)@ == old(self)@,
            },
    {
        let ghost before = self@;
        let user_id = match self.resolve_user_id(who) {
            Ok(user_id) => user_id,
            Err(e) => {
                return Err(e);
            },
        };
        let ghost k = user_id@;
        assert(before.is_user(k, who@));
        let mut items = self.member_list(user_id.as_str());
        let ghost list = text::texts(items@);
        items.push(group.to_owned());
        assert(text::texts(items@) =~= list.push(group@));
        self.group_members.insert(user_id, TextList { items });
        assert(self@ =~= before.with_member(k, group@));
        Ok(())
    }

    /// Takes a user out of a group.
    pub fn remove_group_member(&mut self, group: &str, who: &str) -> (r: Result<(), CoreError>)
        requires
            old(self).wf(),
        ensures
            final(self).wf(),
            match r {
                Ok(_) => exists|k: Seq<char>| #[trigger]
                    old(self)@.is_user(k, who@) && final(self)@ == old(self)@.without_member(
                        k,
                        group@,
                    ),
                Err(e) => e@ == CoreErrorView::NotFound && !old(self)@.has_user(who@)
                    && final(self)@ == old(self)@,
            },
    {
        let ghost before = self@;
        let user_id = match self.resolve_user_id(who) {
            Ok(user_id) => user_id,
            Err(e) => {
                return Err(e);
            },
        };
        let ghost k = user_id@;
        assert(before.is_user(k, who@));
        let items = match self.group_members.get(&user_id) {
            Some(list) => drop_text(&list.items, group),
            None => {
                return Ok(());
            },
        };
        self.group_members.insert(user_id, TextList { items });
        assert(self@ =~= before.without_member(k, group@));
        Ok(())
    }

    fn edge_position(&self, member: &str, parent: &str) -> (r: Option<usize>)
        ensures
            match r {
                Some(i) => i < self@.group_groups.len() && self@.group_groups[i as int] == (
                    member@,
                    parent@,
                ),
                None => !self@.group_groups.contains((member@, parent@)),
            },
    {
        let mut i: usize = 0;
        while i < self.group_groups.len()
            invariant
                i <= self.group_groups@.len(),
                forall|j: int|
                    0 <= j < i ==> (#[trigger] self@.group_groups[j]) != (member@, parent@),
            decreases self.group_groups@.len() - i,
        {
            if same(self.group_groups[i].member.as_str(), member) && same(
                self.group_groups[i].parent.as_str(),
                parent,
            ) {
                return Some(i);
            }
            i += 1;
        }
        None
    }

    /// Puts a group into another, unless that would make a group contain itself.
    /// Gives back whether it was not there before.
    pub(crate) fn nest(&mut self, parent_group: &str, member_group: &str) -> (r: Result<
        bool,
        CoreError,
    >)
        requires
            old(self).wf(),
        ensures
            final(self).wf(),
            match r {
                Ok(new) => old(self)@.nesting_refusal(parent_group@, member_group@) is None
                    && final(self)@ == old(self)@.after_nesting(parent_group@, member_group@)
                    && new == !old(self)@.is_nested(parent_group@, member_group@),
                Err(e) => old(self)@.nesting_refusal(parent_group@, member_group@) == Some(e@)
                    && final(self)@ == old(self)@,
            },
    {
        let ghost before = self@;
        let parent = match self.resolve_group_id(parent_group) {
            Ok(id) => id,
            Err(e) => {
                return Err(e);
            },
        };
        let member = match self.resolve_group_id(member_group) {
            Ok(id) => id,
            Err(e) => {
                return Err(e);
            },
        };
        if same(parent.as_str(), member.as_str()) {
            return Err(invalid("group cannot contain itself"));
        }
        if self.edge_position(member.as_str(), parent.as_str()).is_some() {
            return Ok(false);
        }
        if is_inside(&self.group_groups, parent.as_str(), member.as_str()) {
            return Err(invalid("group nesting would create a cycle"));
        }
        let ghost e = (member@, parent@);
        self.group_groups.push(GroupEdge { member, parent });
        proof {
            assert(nesting::edges_of(self.group_groups@) =~= before.group_groups.push(e));
            nesting::lemma_push_keeps_acyclic(before.group_groups, e.0, e.1);
            assert(before.group_groups.push(e).no_duplicates());
            assert(self@ =~= before.after_nesting(parent_group@, member_group@));
        }
        Ok(true)
    }

    /// Puts a group into another, unless that would make a group contain itself.
    pub fn add_group_group(&mut self, parent_group: &str, member_group: &str) -> (r: Result<
        (),
        CoreError,
    >)
        requires
            old(self).wf(),
        ensures
            final(self).wf(),
            match r {
                Ok(_) => old(self)@.nesting_refusal(parent_group@, member_group@) is None
                    && final(self)@ == old(self)@.after_nesting(parent_group@, member_group@),
                Err(e) => old(self)@.nesting_refusal(parent_group@, member_group@) == Some(e@)
                    && final(self)@ == old(self)@,
            },
    {
        match self.nest(parent_group, member_group) {
            Ok(_) => Ok(()),
            Err(e) => Err(e),
        }
    }

    /// Takes a group out of another.
    pub fn remove_group_group(&mut self, parent_group: &str, member_group: &str) -> (r: Result<
        (),
        CoreError,
    >)
        requires
            old(self).wf(),
        ensures
            final(self).wf(),
            match r {
                Ok(_) => old(self)@.is_after_unnesting(parent_group@, member_group@, final(self)@),
                Err(e) => e@ == CoreErrorView::NotFound && !old(self)@.is_nested(
                    parent_group@,
                    member_group@,
                ) && final(self)@ == old(self)@,
            },
    {
        let ghost before = self@;
        let parent = match self.resolve_group_id(parent_group) {
            Ok(id) => id,
            Err(e) => {
                return Err(e);
            },
        };
        let member = match self.resolve_group_id(member_group) {
            Ok(id) => id,
            Err(e) => {
                return Err(e);
            },
        };
        let at: usize = match self.edge_position(member.as_str(), parent.as_str()) {
            Some(at) => at,
            None => {
                return Err(CoreError::NotFound);
            },
        };
        let _ = self.group_groups.remove(at);
        proof {
            let edges = before.group_groups;
            assert(nesting::edges_of(self.group_groups@) =~= edges.remove(at as int));
            nesting::lemma_remove_keeps_acyclic(edges, at as int);
            assert forall|i: int, j: int|
                0 <= i < edges.remove(at as int).len() && 0 <= j < edges.remove(at as int).len() && i
                    != j implies edges.remove(at as int)[i] != edges.remove(at as int)[j] by {
                assert(edges.remove(at as int)[i] == edges[if i < at { i } else { i + 1 }]);
                assert(edges.remove(at as int)[j] == edges[if j < at { j } else { j + 1 }]);
            }
            assert(self@ =~= (StoreView { group_groups: edges.remove(at as int), ..before }));
            assert(before.nested_pair(parent_group@, member_group@) == Ok::<
                (Seq<char>, Seq<char>),
                CoreErrorView,
            >(edges[at as int]));
        }
        Ok(())
    }

    /// The groups, by name.
    pub fn list_groups(&self) -> (r: Result<Vec<Group>, CoreError>)
        requires
            self.wf(),
        ensures
            r matches Ok(out) && order::is_listing::<Group>(
                order::views(out@),
                self@.all_groups(),
            ),
    {
        let found = self.groups.select(&AnyGroup);
        let ghost list = order::views(found@);
        proof {
            let set = self@.all_groups();
            assert forall|g: GroupView| list.to_set().contains(g) <==> set.contains(g) by {
                if set.contains(g) {
                    assert(self@.groups.contains_key(g.name));
                }
            }
            assert(list.to_set() =~= set);
        }
        let out = sort(found);
        proof {
            order::lemma_sorted_copy::<Group>(order::views(out@), list);
        }
        Ok(out)
    }

    /// The users who were put into a group, by address.
    pub fn list_group_members(&self, group: &str) -> (r: Result<Vec<User>, CoreError>)
        requires
            self.wf(),
        ensures
            match r {
                Ok(out) => exists|n: Seq<char>| #[trigger]
                    self@.is_group(n, group@) && order::is_listing::<User>(
                        order::views(out@),
                        self@.members(n),
                    ),
                Err(e) => e@ == CoreErrorView::NotFound && self@.group_id(group@) is Err,
            },
    {
        let group = match self.group_by_name_or_id(group) {
            Ok(group) => group,
            Err(e) => {
                return Err(e);
            },
        };
        let ghost n = group.name@;
        let mut ids: Vec<String> = Vec::new();
        let mut i: usize = 0;
        while i < self.group_members.len()
            invariant
                self.wf(),
                n == group.name@,
                self@.groups[n] == group@,
                i <= self.group_members.rows().len(),
                forall|k: Seq<char>| #[trigger]
                    text::texts(ids@).contains(k) <==> exists|j: int|
                        0 <= j < i && (#[trigger] self.group_members.rows()[j]).0 == k
                            && self@.is_member(n, k),
            decreases self.group_members.rows().len() - i,
        {
            proof {
                table::lemma_map_of(self.group_members.rows());
            }
            let ghost before = text::texts(ids@);
            let ghost row = self.group_members.rows()[i as int];
            let list = self.group_members.value_at(i);
            assert(self@.group_members.contains_key(row.0));
            assert(self@.member_list(row.0) == list@);
            if has_member(&list.items, group.id.as_str()) || has_member(
                &list.items,
                group.name.as_str(),
            ) {
                ids.push(self.group_members.key_at(i).clone());
                assert(text::texts(ids@) =~= before.push(row.0));
            }
            proof {
                let after = text::texts(ids@);
                assert forall|k: Seq<char>| #[trigger]
                    after.contains(k) <==> exists|j: int|
                        0 <= j < i + 1 && (#[trigger] self.group_members.rows()[j]).0 == k
                            && self@.is_member(n, k) by {
                    if after.contains(k) {
                        if before.contains(k) {
                            let j = choose|j: int|
                                0 <= j < i && (#[trigger] self.group_members.rows()[j]).0 == k;
                            assert(self.group_members.rows()[j].0 == k);
                        } else {
                            assert(self.group_members.rows()[i as int].0 == k);
                        }
                    }
                    if exists|j: int|
                        0 <= j < i + 1 && (#[trigger] self.group_members.rows()[j]).0 == k
                            && self@.is_member(n, k) {
                        let j = choose|j: int|
                            0 <= j < i + 1 && (#[trigger] self.group_members.rows()[j]).0 == k;
                        if j < i {
                            assert(before.contains(k));
                            let x = choose|x: int| 0 <= x < before.len() && before[x] == k;
                            assert(after[x] == k);
                        } else {
                            assert(after[after.len() - 1] == k);
                        }
                    }
                }
            }
            i += 1;
        }
        let query = MemberQuery { ids };
        proof {
            assert forall|a: Seq<char>, b: Seq<char>| #[trigger]
                self.users@.contains_key(a) && #[trigger] self.users@.contains_key(b) && self.users@[a]
                    == self.users@[b] implies a == b by {
                assert(self@.users.contains_key(a) && self@.users.contains_key(b));
            }
        }
        let found = self.users.select(&query);
        let ghost list = order::views(found@);
        proof {
            table::lemma_map_of(self.group_members.rows());
            let set = self@.members(n);
            assert forall|u: UserView| list.to_set().contains(u) <==> set.contains(u) by {
                if list.to_set().contains(u) {
                    assert(text::texts(query.ids@).contains(u.id));
                }
                if set.contains(u) {
                    assert(self@.users.contains_key(u.id));
                    assert(self@.is_member(n, u.id));
                    assert(self@.group_members.contains_key(u.id));
                    let j = table::row_of(self.group_members.rows(), u.id);
                    assert(self.group_members.rows()[j].0 == u.id);
                    assert(text::texts(query.ids@).contains(u.id));
                }
            }
            assert(list.to_set() =~= set);
        }
        let out = sort(found);
        proof {
            order::lemma_sorted_copy::<User>(order::views(out@), list);
        }
        Ok(out)
    }

    /// The groups directly inside a group, by name.
    pub fn list_group_groups(&self, group: &str) -> (r: Result<Vec<Group>, CoreError>)
        requires
            self.wf(),
        ensures
            match r {
                Ok(out) => self@.group_id(group@) matches Ok(id) && self@.lists_nested(
                    id,
                    order::views(out@),
                ),
                Err(e) => self@.group_id(group@) == Err::<Seq<char>, CoreErrorView>(e@),
            },
    {
        let id = match self.resolve_group_id(group) {
            Ok(id) => id,
            Err(e) => {
                return Err(e);
            },
        };
        let ghost edges = self@.group_groups;
        let mut found: Vec<Group> = Vec::new();
        let mut i: usize = 0;
        while i < self.group_groups.len()
            invariant
                self.wf(),
                edges == self@.group_groups,
                i <= edges.len(),
                edges.len() == self.group_groups@.len(),
                forall|k: int|
                    0 <= k < found@.len() ==> {
                        &&& self@.all_groups().contains(#[trigger] order::views(found@)[k])
                        &&& exists|j: int|
                            0 <= j < i && #[trigger] edges[j] == (
                                order::views(found@)[k].id,
                                id@,
                            )
                    },
                forall|a: int, b: int|
                    0 <= a < found@.len() && 0 <= b < found@.len() && (
                    #[trigger] order::views(found@)[a]).id == (#[trigger] order::views(
                        found@,
                    )[b]).id ==> a == b,
                forall|j: int|
                    0 <= j < i && self@.has_group_id((#[trigger] edges[j]).0) && edges[j].1 == id@
                        ==> exists|k: int|
                        0 <= k < found@.len() && (#[trigger] order::views(found@)[k]).id
                            == edges[j].0,
            decreases edges.len() - i,
        {
            let ghost before = order::views(found@);
            assert(edges[i as int] == self.group_groups@[i as int]@);
            if same(self.group_groups[i].parent.as_str(), id.as_str()) {
                if let Some(member) = self.group_with_id(self.group_groups[i].member.as_str()) {
                    let ghost view = member@;
                    found.push(member.clone());
                    let ghost after = order::views(found@);
                    assert(after =~= before.push(view));
                    proof {
                        assert(self@.groups.contains_key(view.name));
                        assert forall|a: int, b: int|
                            0 <= a < after.len() && 0 <= b < after.len() && (#[trigger] after[a]).id
                                == (#[trigger] after[b]).id implies a == b by {
                            if a < before.len() && b == before.len() {
                                let j = choose|j: int|
                                    0 <= j < i && #[trigger] edges[j] == (before[a].id, id@);
                                assert(edges[j] == edges[i as int]);
                            }
                            if b < before.len() && a == before.len() {
                                let j = choose|j: int|
                                    0 <= j < i && #[trigger] edges[j] == (before[b].id, id@);
                                assert(edges[j] == edges[i as int]);
                            }
                            if a < before.len() && b < before.len() {
                                assert(before[a].id == before[b].id);
                            }
                        }
                        assert(after[after.len() - 1].id == edges[i as int].0);
                        assert forall|k: int| 0 <= k < after.len() implies {
                            &&& self@.all_groups().contains(#[trigger] after[k])
                            &&& exists|j: int|
                                0 <= j < i + 1 && #[trigger] edges[j] == (after[k].id, id@)
                        } by {
                            if k < before.len() {
                                assert(before[k] == after[k]);
                                let j = choose|j: int|
                                    0 <= j < i && #[trigger] edges[j] == (before[k].id, id@);
                                assert(edges[j] == (after[k].id, id@));
                            } else {
                                assert(edges[i as int] == (after[k].id, id@));
                            }
                        }
                    }
                }
            }
            proof {
                let after = order::views(found@);
                assert forall|j: int|
                    0 <= j < i + 1 && self@.has_group_id((#[trigger] edges[j]).0) && edges[j].1
                        == id@ implies exists|k: int|
                    0 <= k < found@.len() && (#[trigger] after[k]).id == edges[j].0 by {
                    if j < i {
                        let k = choose|k: int|
                            0 <= k < before.len() && (#[trigger] before[k]).id == edges[j].0;
                        assert(after[k] == before[k]);
                    }
                }
            }
            i += 1;
        }
        let ghost list = order::views(found@);
        let out = sort(found);
        proof {
            let o = order::views(out@);
            assert(list.no_duplicates()) by {
                assert forall|a: int, b: int|
                    0 <= a < list.len() && 0 <= b < list.len() && a != b implies list[a]
                    != list[b] by {
                    if list[a] == list[b] {
                        assert(list[a].id == list[b].id);
                    }
                }
            }
            order::lemma_sorted_copy::<Group>(o, list);
            assert forall|k: int| 0 <= k < o.len() implies {
                &&& self@.all_groups().contains(#[trigger] o[k])
                &&& edges.contains((o[k].id, id@))
            } by {
                assert(o.contains(o[k]));
                let x = choose|x: int| 0 <= x < list.len() && list[x] == o[k];
                assert(self@.all_groups().contains(list[x]));
            }
            assert forall|a: int, b: int|
                0 <= a < o.len() && 0 <= b < o.len() && (#[trigger] o[a]).id == (
                #[trigger] o[b]).id implies a == b by {
                assert(o.contains(o[a]) && o.contains(o[b]));
                let x = choose|x: int| 0 <= x < list.len() && list[x] == o[a];
                let y = choose|y: int| 0 <= y < list.len() && list[y] == o[b];
                assert(list[x].id == list[y].id);
                assert(x == y);
            }
            assert forall|m: Seq<char>|
                self@.has_group_id(m) && #[trigger] edges.contains((m, id@)) implies exists|k: int|
                0 <= k < o.len() && (#[trigger] o[k]).id == m by {
                let j = choose|j: int| 0 <= j < edges.len() && edges[j] == (m, id@);
                assert(edges[j].0 == m);
                let k = choose|k: int| 0 <= k < list.len() && (#[trigger] list[k]).id == m;
                assert(list.contains(list[k]));
                let z = choose|z: int| 0 <= z < o.len() && o[z] == list[k];
                assert(o[z].id == m);
            }
        }
        Ok(out)
    }
}

} // verus!
