//! How the store in memory finds users, groups and repositories.

use vstd::prelude::*;

use crate::error;
use crate::error::{invalid, CoreError, CoreErrorView};
use crate::memory::{Store, StoreView};
use crate::model::{Group, User, UserView};
use crate::nesting;
use crate::resource_id;
use crate::resource_id::ResourceID;
use crate::table;
use crate::text;
use crate::text::{cat2, debug_text, same};
use crate::walk::reached_groups;

verus! {

impl StoreView {
    /// Whether `k` is a user with the identifier or the address `who`.
    pub open spec fn is_user(self, k: Seq<char>, who: Seq<char>) -> bool {
        &&& self.users.contains_key(k)
        &&& k == who || self.users[k].email == who
    }

    /// Whether there is a user with the identifier or the address `who`.
    pub open spec fn has_user(self, who: Seq<char>) -> bool {
        exists|k: Seq<char>| self.is_user(k, who)
    }

    /// The user with the identifier `id`, as long as the user is active.
    pub open spec fn active_user(self, id: Seq<char>) -> Result<UserView, CoreErrorView> {
        if !self.users.contains_key(id) {
            Err(CoreErrorView::NotFound)
        } else if self.users[id].status != "active"@ {
            Err(CoreErrorView::PermissionDenied)
        } else {
            Ok(self.users[id])
        }
    }

    /// The groups that a user was put into, as they were named then.
    pub open spec fn member_list(self, user: Seq<char>) -> Seq<Seq<char>> {
        if self.group_members.contains_key(user) {
            self.group_members[user]
        } else {
            Seq::empty()
        }
    }

    /// Whether some group has the identifier `id`.
    pub open spec fn has_group_id(self, id: Seq<char>) -> bool {
        exists|n: Seq<char>| #[trigger] self.groups.contains_key(n) && self.groups[n].id == id
    }

    /// Whether `n` is the name of a group that is meant by `group`: one with
    /// that identifier, or else the one with that name.
    pub open spec fn is_group(self, n: Seq<char>, group: Seq<char>) -> bool {
        &&& self.groups.contains_key(n)
        &&& self.groups[n].id == group || (!self.has_group_id(group) && n == group)
    }

    /// The identifier of the group that is meant by `group`.
    pub open spec fn group_id(self, group: Seq<char>) -> Result<Seq<char>, CoreErrorView> {
        if self.has_group_id(group) {
            Ok(group)
        } else if self.groups.contains_key(group) {
            Ok(self.groups[group].id)
        } else {
            Err(CoreErrorView::NotFound)
        }
    }

    /// The identifiers of those of the groups `named` that there are.
    pub open spec fn group_ids(self, named: Seq<Seq<char>>) -> Seq<Seq<char>>
        decreases named.len(),
    {
        if named.len() == 0 {
            Seq::empty()
        } else {
            let before = self.group_ids(named.drop_last());
            match self.group_id(named.last()) {
                Ok(id) => before.push(id),
                Err(_) => before,
            }
        }
    }

    /// The groups that a user is directly in, by identifier.
    pub open spec fn direct_groups(self, user: Seq<char>) -> Seq<Seq<char>> {
        self.group_ids(self.member_list(user))
    }

    /// Whether a user belongs to the group `g`, directly or through other groups.
    pub open spec fn belongs(self, user: Seq<char>, g: Seq<char>) -> bool {
        nesting::reached(self.group_groups, self.direct_groups(user), g)
    }

    /// Whether `label` is what the group with the identifier `id` is called.
    pub open spec fn is_label(self, id: Seq<char>, label: Seq<char>) -> bool {
        if self.has_group_id(id) {
            self.groups.contains_key(label) && self.groups[label].id == id
        } else {
            label == id
        }
    }

    /// Whether `k` is a repository named `name` that is not deleted.
    pub open spec fn is_repository(self, k: Seq<char>, name: Seq<char>) -> bool {
        &&& self.resources.contains_key(k)
        &&& self.resources[k].status != "deleted"@
        &&& self.resources[k].name == name
    }

    /// Whether there is a repository named `name` that is not deleted.
    pub open spec fn has_repository(self, name: Seq<char>) -> bool {
        exists|k: Seq<char>| self.is_repository(k, name)
    }

    /// Why no repository is meant by `repo`; none where one is.
    pub open spec fn repository_refusal(self, repo: Seq<char>) -> Option<CoreErrorView> {
        if text::trimmed(repo).len() == 0 {
            Some(CoreErrorView::InvalidArgument("repo must not be empty"@))
        } else if !self.has_repository(text::trimmed(repo)) {
            Some(CoreErrorView::NotFound)
        } else {
            None
        }
    }

    /// The resource that is meant by `resource`, as long as it is not deleted.
    pub open spec fn exact_resource(self, resource: Seq<char>) -> Result<Seq<char>, CoreErrorView> {
        match resource_id::resource_for(resource_id::repository_of(text::trimmed(resource))) {
            None => Err(CoreErrorView::InvalidArgument("resource_id must not be empty"@)),
            Some(id) => if self.resources.contains_key(id) && self.resources[id].status
                != "deleted"@ {
                Ok(id)
            } else {
                Err(CoreErrorView::NotFound)
            },
        }
    }

    /// Whether `id` is who is meant by `subject`.
    pub open spec fn is_subject(self, kind: Seq<char>, subject: Seq<char>, id: Seq<char>) -> bool {
        ||| kind == "user"@ && self.is_user(id, subject)
        ||| kind == "group"@ && self.group_id(subject) == Ok::<Seq<char>, CoreErrorView>(id)
    }

    /// Why nobody is meant by `subject`; none where somebody is.
    pub open spec fn subject_refusal(
        self,
        kind: Seq<char>,
        subject: Seq<char>,
    ) -> Option<CoreErrorView> {
        if kind == "user"@ {
            if self.has_user(subject) {
                None
            } else {
                Some(
                    CoreErrorView::InvalidArgument(
                        "unknown grant user "@ + text::debug_quoted(subject),
                    ),
                )
            }
        } else if kind == "group"@ {
            if self.group_id(subject) is Ok {
                None
            } else {
                Some(
                    CoreErrorView::InvalidArgument(
                        "unknown grant group "@ + text::debug_quoted(subject),
                    ),
                )
            }
        } else {
            Some(
                CoreErrorView::InvalidArgument(
                    "unknown grant subject_type "@ + text::debug_quoted(kind),
                ),
            )
        }
    }
}

impl Store {
    /// The identifier of a user with the identifier or the address `who`.
    pub(crate) fn resolve_user_id(&self, who: &str) -> (r: Result<String, CoreError>)
        requires
            self.wf(),
        ensures
            match r {
                Ok(k) => self@.is_user(k@, who@),
                Err(e) => e@ == CoreErrorView::NotFound && !self@.has_user(who@),
            },
    {
        proof {
            table::lemma_map_of(self.users.rows());
        }
        let mut i: usize = 0;
        while i < self.users.len()
            invariant
                self.wf(),
                i <= self.users.rows().len(),
                forall|j: int|
                    0 <= j < i ==> (#[trigger] self.users.rows()[j]).0 != who@
                        && self.users.rows()[j].1.email != who@,
            decreases self.users.rows().len() - i,
        {
            proof {
                table::lemma_map_of(self.users.rows());
            }
            let user = self.users.value_at(i);
            assert(self.users.rows()[i as int].1 == user@);
            assert(self@.users.contains_key(self.users.rows()[i as int].0));
            if same(user.id.as_str(), who) || same(user.email.as_str(), who) {
                return Ok(user.id.clone());
            }
            i += 1;
        }
        proof {
            assert forall|k: Seq<char>| !self@.is_user(k, who@) by {
                if self@.users.contains_key(k) {
                    let j = table::row_of(self.users.rows(), k);
                    assert(self.users.rows()[j].0 == k);
                }
            }
        }
        Err(CoreError::NotFound)
    }

    /// The user with the identifier `id`, as long as the user is active.
    pub(crate) fn active_user(&self, id: &str) -> (r: Result<&User, CoreError>)
        requires
            self.wf(),
        ensures
            match r {
                Ok(u) => self@.active_user(id@) == Ok::<UserView, CoreErrorView>(u@),
                Err(e) => self@.active_user(id@) == Err::<UserView, CoreErrorView>(e@),
            },
    {
        match self.users.get(&id.to_owned()) {
            None => Err(CoreError::NotFound),
            Some(user) => if same(user.status.as_str(), "active") {
                Ok(user)
            } else {
                Err(CoreError::PermissionDenied)
            },
        }
    }

    /// The groups that a user was put into, as they were named then.
    pub(crate) fn member_list(&self, user_id: &str) -> (r: Vec<String>)
        requires
            self.wf(),
        ensures
            text::texts(r@) == self@.member_list(user_id@),
    {
        match self.group_members.get(&user_id.to_owned()) {
            Some(list) => text::copy_texts(&list.items),
            None => {
                let out: Vec<String> = Vec::new();
                assert(text::texts(out@) =~= Seq::<Seq<char>>::empty());
                out
            },
        }
    }

    /// A group with the identifier `id`.
    pub(crate) fn group_with_id(&self, id: &str) -> (r: Option<&Group>)
        requires
            self.wf(),
        ensures
            match r {
                Some(g) => self@.groups.contains_key(g.name@) && self@.groups[g.name@] == g@
                    && g.id@ == id@,
                None => !self@.has_group_id(id@),
            },
    {
        proof {
            table::lemma_map_of(self.groups.rows());
        }
        let mut i: usize = 0;
        while i < self.groups.len()
            invariant
                self.wf(),
                i <= self.groups.rows().len(),
                forall|j: int| 0 <= j < i ==> (#[trigger] self.groups.rows()[j]).1.id != id@,
            decreases self.groups.rows().len() - i,
        {
            proof {
                table::lemma_map_of(self.groups.rows());
            }
            let group = self.groups.value_at(i);
            assert(self.groups.rows()[i as int].1 == group@);
            assert(self@.groups.contains_key(self.groups.rows()[i as int].0));
            if same(group.id.as_str(), id) {
                return Some(group);
            }
            i += 1;
        }
        proof {
            assert forall|n: Seq<char>| #[trigger]
                self@.groups.contains_key(n) implies self@.groups[n].id != id@ by {
                let j = table::row_of(self.groups.rows(), n);
                assert(self.groups.rows()[j].0 == n);
            }
        }
        None
    }

    /// The group that is meant by `group`.
    pub(crate) fn group_by_name_or_id(&self, group: &str) -> (r: Result<&Group, CoreError>)
        requires
            self.wf(),
        ensures
            match r {
                Ok(g) => self@.is_group(g.name@, group@) && self@.groups[g.name@] == g@
                    && self@.group_id(group@) == Ok::<Seq<char>, CoreErrorView>(g.id@),
                Err(e) => e@ == CoreErrorView::NotFound && self@.group_id(group@) == Err::<
                    Seq<char>,
                    CoreErrorView,
                >(e@),
            },
    {
        if let Some(found) = self.group_with_id(group) {
            return Ok(found);
        }
        match self.groups.get(&group.to_owned()) {
            Some(found) => Ok(found),
            None => Err(CoreError::NotFound),
        }
    }

    /// The identifier of the group that is meant by `group`.
    pub(crate) fn resolve_group_id(&self, group: &str) -> (r: Result<String, CoreError>)
        requires
            self.wf(),
        ensures
            error::outcome(r) == self@.group_id(group@),
    {
        match self.group_by_name_or_id(group) {
            Ok(found) => Ok(found.id.clone()),
            Err(e) => Err(e),
        }
    }

    /// What the group with the identifier `id` is called.
    pub(crate) fn group_label(&self, id: &str) -> (r: String)
        requires
            self.wf(),
        ensures
            self@.is_label(id@, r@),
    {
        match self.group_with_id(id) {
            Some(group) => group.name.clone(),
            None => id.to_owned(),
        }
    }

    /// The groups that a user is directly in, by identifier.
    pub(crate) fn direct_group_ids_for_user(&self, user_id: &str) -> (r: Vec<String>)
        requires
            self.wf(),
        ensures
            text::texts(r@) == self@.direct_groups(user_id@),
    {
        let named = self.member_list(user_id);
        let ghost names = text::texts(named@);
        let mut out: Vec<String> = Vec::new();
        let mut i: usize = 0;
        assert(text::texts(out@) =~= self@.group_ids(names.take(0)));
        while i < named.len()
            invariant
                self.wf(),
                i <= named@.len(),
                names == text::texts(named@),
                text::texts(out@) == self@.group_ids(names.take(i as int)),
            decreases named@.len() - i,
        {
            let ghost before = text::texts(out@);
            assert(names.take(i + 1).drop_last() =~= names.take(i as int));
            assert(names.take(i + 1).last() == named@[i as int]@);
            match self.resolve_group_id(named[i].as_str()) {
                Ok(id) => {
                    let ghost id_view = id@;
                    out.push(id);
                    assert(text::texts(out@) =~= before.push(id_view));
                },
                Err(_) => {},
            }
            i += 1;
        }
        assert(names.take(i as int) =~= names);
        out
    }

    /// The groups that a user belongs to, directly or through other groups.
    pub(crate) fn groups_of_user(&self, user_id: &str) -> (r: Vec<String>)
        requires
            self.wf(),
        ensures
            text::texts(r@).no_duplicates(),
            forall|g: Seq<char>|
                text::texts(r@).contains(g) <==> #[trigger] self@.belongs(user_id@, g),
    {
        let direct = self.direct_group_ids_for_user(user_id);
        let r = reached_groups(&direct, &self.group_groups);
        proof {
            assert forall|g: Seq<char>|
                text::texts(r@).contains(g) <==> #[trigger] self@.belongs(user_id@, g) by {
                assert(self@.belongs(user_id@, g) == nesting::reached(
                    nesting::edges_of(self.group_groups@),
                    text::texts(direct@),
                    g,
                ));
            }
        }
        r
    }

    /// The resource of the repository that is meant by `repo`.
    pub(crate) fn resolve_resource_id_for_repo(&self, repo: &str) -> (r: Result<String, CoreError>)
        requires
            self.wf(),
        ensures
            match r {
                Ok(k) => self@.repository_refusal(repo@) is None && self@.is_repository(
                    k@,
                    text::trimmed(repo@),
                ),
                Err(e) => self@.repository_refusal(repo@) == Some(e@),
            },
    {
        let name = repo.trim();
        if name.is_empty() {
            return Err(invalid("repo must not be empty"));
        }
        proof {
            table::lemma_map_of(self.resources.rows());
        }
        let mut i: usize = 0;
        while i < self.resources.len()
            invariant
                self.wf(),
                name@ == text::trimmed(repo@),
                name@.len() > 0,
                i <= self.resources.rows().len(),
                forall|j: int|
                    0 <= j < i ==> !((#[trigger] self.resources.rows()[j]).1.status != "deleted"@
                        && self.resources.rows()[j].1.name == name@),
            decreases self.resources.rows().len() - i,
        {
            proof {
                table::lemma_map_of(self.resources.rows());
            }
            let resource = self.resources.value_at(i);
            assert(self.resources.rows()[i as int].1 == resource@);
            assert(self@.resources.contains_key(self.resources.rows()[i as int].0));
            if !same(resource.status.as_str(), "deleted") && same(resource.name.as_str(), name) {
                assert(self@.is_repository(resource.resource_id@, name@));
                return Ok(resource.resource_id.clone());
            }
            i += 1;
        }
        proof {
            assert forall|k: Seq<char>| !self@.is_repository(k, name@) by {
                if self@.resources.contains_key(k) {
                    let j = table::row_of(self.resources.rows(), k);
                    assert(self.resources.rows()[j].0 == k);
                }
            }
        }
        Err(CoreError::NotFound)
    }

    /// The resource that is meant by `resource`, as long as it is not deleted.
    pub(crate) fn resolve_exact_resource_id(&self, resource: &str) -> (r: Result<String, CoreError>)
        requires
            self.wf(),
        ensures
            error::outcome(r) == self@.exact_resource(resource@),
    {
        let repository = ResourceID::repository_id_from_resource_id(resource.trim());
        match ResourceID::for_repository_id(repository.as_str()) {
            None => Err(invalid("resource_id must not be empty")),
            Some(id) => match self.resources.get(&id) {
                Some(found) => if same(found.status.as_str(), "deleted") {
                    Err(CoreError::NotFound)
                } else {
                    Ok(found.resource_id.clone())
                },
                None => Err(CoreError::NotFound),
            },
        }
    }

    /// Who is meant by `subject`.
    pub(crate) fn resolve_grant_subject_id(&self, subject_type: &str, subject: &str) -> (r: Result<
        String,
        CoreError,
    >)
        requires
            self.wf(),
        ensures
            match r {
                Ok(id) => self@.subject_refusal(subject_type@, subject@) is None
                    && self@.is_subject(subject_type@, subject@, id@),
                Err(e) => self@.subject_refusal(subject_type@, subject@) == Some(e@),
            },
    {
        if same(subject_type, "user") {
            match self.resolve_user_id(subject) {
                Ok(id) => Ok(id),
                Err(_) => Err(
                    invalid(cat2("unknown grant user ", debug_text(subject).as_str()).as_str()),
                ),
            }
        } else if same(subject_type, "group") {
            match self.resolve_group_id(subject) {
                Ok(id) => Ok(id),
                Err(_) => Err(
                    invalid(cat2("unknown grant group ", debug_text(subject).as_str()).as_str()),
                ),
            }
        } else {
            Err(
                invalid(
                    cat2("unknown grant subject_type ", debug_text(subject_type).as_str()).as_str(),
                ),
            )
        }
    }
}

} // verus!
