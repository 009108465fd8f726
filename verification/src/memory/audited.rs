//! The store in memory with a record of every administrative change.

use vstd::prelude::*;

use crate::audit;
use crate::audit::{admin_audit_entry, gone_grant, grant_detail};
use crate::email;
use crate::error;
use crate::error::{invalid, CoreError, CoreErrorView};
use crate::ids;
use crate::ids::new_id;
use crate::memory::resources::normalize_resource_for_upsert;
use crate::memory::{accounts, groups, resources, Store, StoreView};
use crate::model::{
    AddInvitationInput, AddUserInput, Grant, Group, IdentityInvitation, Resource, ResourceView, User,
    UserView,
};
use crate::resource_id;
use crate::resource_id::ResourceID;
use crate::text;
use crate::text::{cat2, cat4, same};

verus! {

/// A store whose changes are recorded as those of an actor.
pub struct AuditedStore {
    pub inner: Store,
    pub actor: String,
}

impl StoreView {
    /// Whether `after` is the store with one more record, of this change by this actor.
    pub open spec fn recorded(
        self,
        actor: Seq<char>,
        action: Seq<char>,
        object_type: Seq<char>,
        object_id: Seq<char>,
        detail: Seq<char>,
        after: StoreView,
    ) -> bool {
        &&& after.admin_audit.len() == self.admin_audit.len() + 1
        &&& audit::is_entry(
            after.admin_audit.last(),
            actor,
            action,
            object_type,
            object_id,
            detail,
        )
        &&& after == self.with_audit(after.admin_audit.last())
    }
}

impl Store {
    /// The store with a record of every change, as one by this actor.
    pub fn audited(self, actor: String) -> (r: AuditedStore)
        ensures
            r.inner == self,
            r.actor == actor,
    {
        AuditedStore { inner: self, actor }
    }
}

impl AuditedStore {
    fn record(&mut self, action: &str, object_type: &str, object_id: &str, detail: &str)
        requires
            old(self).inner.wf(),
        ensures
            final(self).inner.wf(),
            final(self).actor == old(self).actor,
            old(self).inner@.recorded(
                old(self).actor@,
                action@,
                object_type@,
                object_id@,
                detail@,
                final(self).inner@,
            ),
    {
        let entry = admin_audit_entry(
            self.actor.as_str(),
            action,
            object_type,
            object_id,
            detail,
        );
        let _ = self.inner.record_admin_audit(entry);
    }

    /// The store itself.
    pub fn into_inner(self) -> (r: Store)
        ensures
            r == self.inner,
    {
        self.inner
    }

    /// Adds a group.
    pub fn add_group(&mut self, name: &str, description: &str) -> (r: Result<Group, CoreError>)
        requires
            old(self).inner.wf(),
        ensures
            final(self).inner.wf(),
            final(self).actor == old(self).actor,
            match r {
                Ok(group) => {
                    &&& groups::group_refusal(name@) is None
                    &&& ids::is_uuid(group@.id)
                    &&& group@ == groups::new_group(name@, description@, group@.id)
                    &&& old(self).inner@.with_group(group@).recorded(
                        old(self).actor@,
                        "group.add"@,
                        "group"@,
                        group@.id,
                        "name="@ + group@.name,
                        final(self).inner@,
                    )
                },
                Err(e) => groups::group_refusal(name@) == Some(e@) && final(self).inner@ == old(self).inner@,
            },
    {
        match self.inner.add_group(name, description) {
            Err(e) => Err(e),
            Ok(group) => {
                let detail = cat2("name=", group.name.as_str());
                self.record("group.add", "group", group.id.as_str(), detail.as_str());
                Ok(group)
            },
        }
    }

    /// Puts a user into a group.
    pub fn add_group_member(&mut self, group: &str, who: &str) -> (r: Result<(), CoreError>)
        requires
            old(self).inner.wf(),
        ensures
            final(self).inner.wf(),
            final(self).actor == old(self).actor,
            match r {
                Ok(_) => exists|k: Seq<char>| #[trigger]
                    old(self).inner@.is_user(k, who@) && old(self).inner@.with_member(
                        k,
                        group@,
                    ).recorded(
                        old(self).actor@,
                        "group.member.add"@,
                        "group"@,
                        group@,
                        "user="@ + who@,
                        final(self).inner@,
                    ),
                Err(e) => e@ == CoreErrorView::NotFound && !old(self).inner@.has_user(who@)
                    && final(self).inner@ == old(self).inner@,
            },
    {
        match self.inner.add_group_member(group, who) {
            Err(e) => Err(e),
            Ok(_) => {
                let detail = cat2("user=", who);
                self.record("group.member.add", "group", group, detail.as_str());
                Ok(())
            },
        }
    }

    /// Takes a user out of a group.
    pub fn remove_group_member(&mut self, group: &str, who: &str) -> (r: Result<(), CoreError>)
        requires
            old(self).inner.wf(),
        ensures
            final(self).inner.wf(),
            final(self).actor == old(self).actor,
            match r {
                Ok(_) => exists|k: Seq<char>| #[trigger]
                    old(self).inner@.is_user(k, who@) && old(self).inner@.without_member(
                        k,
                        group@,
                    ).recorded(
                        old(self).actor@,
                        "group.member.remove"@,
                        "group"@,
                        group@,
                        "user="@ + who@,
                        final(self).inner@,
                    ),
                Err(e) => e@ == CoreErrorView::NotFound && !old(self).inner@.has_user(who@)
                    && final(self).inner@ == old(self).inner@,
            },
    {
        match self.inner.remove_group_member(group, who) {
            Err(e) => Err(e),
            Ok(_) => {
                let detail = cat2("user=", who);
                self.record("group.member.remove", "group", group, detail.as_str());
                Ok(())
            },
        }
    }

    /// Puts a group into another. Nothing is recorded where it was there already.
    pub fn add_group_group(&mut self, parent_group: &str, member_group: &str) -> (r: Result<
        (),
        CoreError,
    >)
        requires
            old(self).inner.wf(),
        ensures
            final(self).inner.wf(),
            final(self).actor == old(self).actor,
            match r {
                Ok(_) => {
                    &&& old(self).inner@.nesting_refusal(parent_group@, member_group@) is None
                    &&& if old(self).inner@.is_nested(parent_group@, member_group@) {
                        final(self).inner@ == old(self).inner@
                    } else {
                        old(self).inner@.after_nesting(parent_group@, member_group@).recorded(
                            old(self).actor@,
                            "group.nest.add"@,
                            "group"@,
                            parent_group@,
                            "member_group="@ + member_group@,
                            final(self).inner@,
                        )
                    }
                },
                Err(e) => old(self).inner@.nesting_refusal(parent_group@, member_group@) == Some(
                    e@,
                ) && final(self).inner@ == old(self).inner@,
            },
    {
        match self.inner.nest(parent_group, member_group) {
            Err(e) => Err(e),
            Ok(new) => {
                if new {
                    let detail = cat2("member_group=", member_group);
                    self.record("group.nest.add", "group", parent_group, detail.as_str());
                }
                Ok(())
            },
        }
    }

    /// Takes a group out of another.
    pub fn remove_group_group(&mut self, parent_group: &str, member_group: &str) -> (r: Result<
        (),
        CoreError,
    >)
        requires
            old(self).inner.wf(),
        ensures
            final(self).inner.wf(),
            final(self).actor == old(self).actor,
            match r {
                Ok(_) => exists|mid: StoreView| #[trigger]
                    old(self).inner@.is_after_unnesting(parent_group@, member_group@, mid)
                        && mid.recorded(
                        old(self).actor@,
                        "group.nest.remove"@,
                        "group"@,
                        parent_group@,
                        "member_group="@ + member_group@,
                        final(self).inner@,
                    ),
                Err(e) => e@ == CoreErrorView::NotFound && !old(self).inner@.is_nested(
                    parent_group@,
                    member_group@,
                ) && final(self).inner@ == old(self).inner@,
            },
    {
        match self.inner.remove_group_group(parent_group, member_group) {
            Err(e) => Err(e),
            Ok(_) => {
                let ghost mid = self.inner@;
                assert(old(self).inner@.is_after_unnesting(parent_group@, member_group@, mid));
                let detail = cat2("member_group=", member_group);
                self.record("group.nest.remove", "group", parent_group, detail.as_str());
                Ok(())
            },
        }
    }

    /// Gives a role on a repository to a user or a group.
    pub fn add_grant(&mut self, subject_type: &str, subject_id: &str, repo: &str, role: &str) -> (r:
        Result<Grant, CoreError>)
        requires
            old(self).inner.wf(),
        ensures
            final(self).inner.wf(),
            final(self).actor == old(self).actor,
            match r {
                Ok(grant) => {
                    &&& old(self).inner@.grant_refusal(
                        subject_type@,
                        subject_id@,
                        repo@,
                        role@,
                    ) is None
                    &&& ids::is_uuid(grant@.id)
                    &&& grant@.subject_type == subject_type@
                    &&& old(self).inner@.is_subject(subject_type@, subject_id@, grant@.subject_id)
                    &&& grant@.repository_id == repo@
                    &&& grant@.role == role@
                    &&& exists|mid: StoreView| #[trigger]
                        old(self).inner@.is_after_grant(
                            subject_type@,
                            grant@.subject_id,
                            repo@,
                            role@,
                            mid,
                        ) && mid.recorded(
                            old(self).actor@,
                            "grant.add"@,
                            "grant"@,
                            grant@.id,
                            audit::grant_details(
                                subject_type@,
                                grant@.subject_id,
                                repo@,
                                role@,
                            ),
                            final(self).inner@,
                        )
                },
                Err(e) => old(self).inner@.grant_refusal(subject_type@, subject_id@, repo@, role@)
                    == Some(e@) && final(self).inner@ == old(self).inner@,
            },
    {
        match self.inner.add_grant(subject_type, subject_id, repo, role) {
            Err(e) => Err(e),
            Ok(grant) => {
                let ghost mid = self.inner@;
                assert(old(self).inner@.is_after_grant(
                    subject_type@,
                    grant@.subject_id,
                    repo@,
                    role@,
                    mid,
                ));
                let detail = grant_detail(subject_type, grant.subject_id.as_str(), repo, role);
                self.record("grant.add", "grant", grant.id.as_str(), detail.as_str());
                Ok(grant)
            },
        }
    }

    /// Takes the role on a repository away from a user or a group.
    pub fn remove_grant(&mut self, subject_type: &str, subject_id: &str, repo: &str, role: &str)
        -> (r: Result<(), CoreError>)
        requires
            old(self).inner.wf(),
        ensures
            final(self).inner.wf(),
            final(self).actor == old(self).actor,
            match r {
                Ok(_) => {
                    &&& old(self).inner@.revoke_refusal(subject_type@, subject_id@, repo@) is None
                    &&& exists|id: Seq<char>, mid: StoreView|
                        {
                            &&& #[trigger] old(self).inner@.is_subject(
                                subject_type@,
                                subject_id@,
                                id,
                            )
                            &&& #[trigger] old(self).inner@.is_after_revoke(
                                subject_type@,
                                id,
                                repo@,
                                mid,
                            )
                            &&& mid.recorded(
                                old(self).actor@,
                                "grant.remove"@,
                                "grant"@,
                                audit::grant_name(subject_type@, id, repo@, role@),
                                audit::grant_details(subject_type@, id, repo@, role@),
                                final(self).inner@,
                            )
                        }
                },
                Err(e) => old(self).inner@.revoke_refusal(subject_type@, subject_id@, repo@)
                    == Some(e@) && final(self).inner@ == old(self).inner@,
            },
    {
        let subject = match self.inner.resolve_grant_subject_id(subject_type, subject_id) {
            Ok(subject) => subject,
            Err(e) => {
                return Err(e);
            },
        };
        let resource = match self.inner.resolve_resource_id_for_repo(repo) {
            Ok(resource) => resource,
            Err(e) => {
                return Err(e);
            },
        };
        assert(self.inner@.is_subject(subject_type@, subject_id@, subject@));
        assert(self.inner@.is_repository(resource@, text::trimmed(repo@)));
        self.inner.drop_grant(subject_type, subject.as_str(), resource.as_str());
        let ghost mid = self.inner@;
        assert(old(self).inner@.is_after_revoke(subject_type@, subject@, repo@, mid));
        let name = gone_grant(subject_type, subject.as_str(), repo, role);
        let detail = grant_detail(subject_type, subject.as_str(), repo, role);
        self.record("grant.remove", "grant", name.as_str(), detail.as_str());
        Ok(())
    }

    /// Adds a user.
    pub fn add_user(&mut self, input: AddUserInput) -> (r: Result<User, CoreError>)
        requires
            old(self).inner.wf(),
        ensures
            final(self).inner.wf(),
            final(self).actor == old(self).actor,
            match email::valid_email(input@.email) {
                Ok(address) => r matches Ok(user) && {
                    &&& ids::is_uuid(user@.id)
                    &&& user@ == accounts::new_user(input@, address, user@.id)
                    &&& old(self).inner@.with_user(user@).recorded(
                        old(self).actor@,
                        "user.add"@,
                        "user"@,
                        user@.id,
                        "email="@ + user@.email,
                        final(self).inner@,
                    )
                },
                Err(e) => error::outcome(r) == Err::<UserView, CoreErrorView>(e)
                    && final(self).inner@ == old(self).inner@,
            },
    {
        match self.inner.add_user(input) {
            Err(e) => Err(e),
            Ok(user) => {
                let detail = cat2("email=", user.email.as_str());
                self.record("user.add", "user", user.id.as_str(), detail.as_str());
                Ok(user)
            },
        }
    }

    /// Invites somebody.
    pub fn add_invitation(&mut self, input: AddInvitationInput) -> (r: Result<
        (User, IdentityInvitation),
        CoreError,
    >)
        requires
            old(self).inner.wf(),
        ensures
            final(self).inner.wf(),
            final(self).actor == old(self).actor,
            match r {
                Ok((user, invitation)) => {
                    &&& accounts::invitation_refusal(input@) is None
                    &&& ids::is_uuid(user@.id)
                    &&& ids::is_uuid(invitation@.id)
                    &&& user@ == accounts::invited_user(input@, user@.id)
                    &&& invitation@ == accounts::new_invitation(input@, invitation@.id, user@.id)
                    &&& old(self).inner@.with_invitation(user@, invitation@).recorded(
                        old(self).actor@,
                        "user.invite"@,
                        "user"@,
                        user@.id,
                        "email="@ + user@.email + " invitation_id="@ + invitation@.id,
                        final(self).inner@,
                    )
                },
                Err(e) => accounts::invitation_refusal(input@) == Some(e@) && final(self).inner@ == old(self).inner@,
            },
    {
        match self.inner.add_invitation(input) {
            Err(e) => Err(e),
            Ok((user, invitation)) => {
                let detail = cat4(
                    "email=",
                    user.email.as_str(),
                    " invitation_id=",
                    invitation.id.as_str(),
                );
                self.record("user.invite", "user", user.id.as_str(), detail.as_str());
                Ok((user, invitation))
            },
        }
    }

    /// Shuts a user out.
    pub fn disable_user(&mut self, who: &str) -> (r: Result<(), CoreError>)
        requires
            old(self).inner.wf(),
        ensures
            final(self).inner.wf(),
            final(self).actor == old(self).actor,
            match r {
                Ok(_) => exists|k: Seq<char>| #[trigger]
                    old(self).inner@.is_user(k, who@) && old(self).inner@.with_status(
                        k,
                        "disabled"@,
                    ).recorded(
                        old(self).actor@,
                        "user.disable"@,
                        "user"@,
                        k,
                        "email="@ + old(self).inner@.users[k].email,
                        final(self).inner@,
                    ),
                Err(e) => e@ == CoreErrorView::NotFound && !old(self).inner@.has_user(who@)
                    && final(self).inner@ == old(self).inner@,
            },
    {
        let user_id = match self.inner.resolve_user_id(who) {
            Ok(user_id) => user_id,
            Err(e) => {
                return Err(e);
            },
        };
        let mut user = match self.inner.get_user(user_id.as_str()) {
            Some(user) => user,
            None => {
                return Err(CoreError::NotFound);
            },
        };
        assert(self.inner@.is_user(user_id@, who@));
        user.status = "disabled".to_owned();
        let detail = cat2("email=", user.email.as_str());
        self.inner.put_user(user);
        self.record("user.disable", "user", user_id.as_str(), detail.as_str());
        Ok(())
    }

    /// Lets a user in again, unless the user was deleted.
    pub fn enable_user(&mut self, who: &str) -> (r: Result<(), CoreError>)
        requires
            old(self).inner.wf(),
        ensures
            final(self).inner.wf(),
            final(self).actor == old(self).actor,
            match r {
                Ok(_) => exists|k: Seq<char>| #[trigger]
                    old(self).inner@.is_user(k, who@) && old(self).inner@.users[k].status
                        != "deleted"@ && old(self).inner@.with_status(k, "active"@).recorded(
                        old(self).actor@,
                        "user.enable"@,
                        "user"@,
                        k,
                        "email="@ + old(self).inner@.users[k].email,
                        final(self).inner@,
                    ),
                Err(e) => e@ == CoreErrorView::NotFound && final(self).inner@ == old(self).inner@
                    && (!old(self).inner@.has_user(who@) || exists|k: Seq<char>| #[trigger]
                    old(self).inner@.is_user(k, who@) && old(self).inner@.users[k].status
                        == "deleted"@),
            },
    {
        let user_id = match self.inner.resolve_user_id(who) {
            Ok(user_id) => user_id,
            Err(e) => {
                return Err(e);
            },
        };
        let mut user = match self.inner.get_user(user_id.as_str()) {
            Some(user) => user,
            None => {
                return Err(CoreError::NotFound);
            },
        };
        assert(self.inner@.is_user(user_id@, who@));
        if same(user.status.as_str(), "deleted") {
            return Err(CoreError::NotFound);
        }
        user.status = "active".to_owned();
        let detail = cat2("email=", user.email.as_str());
        self.inner.put_user(user);
        self.record("user.enable", "user", user_id.as_str(), detail.as_str());
        Ok(())
    }

    /// Adds a repository, or changes it.
    pub fn upsert(&mut self, resource: Resource) -> (r: Result<(), CoreError>)
        requires
            old(self).inner.wf(),
        ensures
            final(self).inner.wf(),
            final(self).actor == old(self).actor,
            resources::normalized(resource@) matches Ok(n) ==> r is Ok && exists|id: Seq<char>| #[trigger]
                ids::is_uuid(id) && old(self).inner@.with_resource(
                    resources::filled(n, id),
                ).recorded(
                    old(self).actor@,
                    "repository.add"@,
                    "repository"@,
                    n.resource_id,
                    "name="@ + n.name + " lore_repository_id="@ + n.lore_repository_id,
                    final(self).inner@,
                ),
            resources::normalized(resource@) matches Err(e) ==> error::outcome(r) == Err::<
                (),
                CoreErrorView,
            >(e) && final(self).inner@ == old(self).inner@,
    {
        let ghost given = resource@;
        let fixed = match normalize_resource_for_upsert(resource) {
            Ok(fixed) => fixed,
            Err(e) => {
                return Err(e);
            },
        };
        let ghost view = fixed@;
        let resource_id = fixed.resource_id.clone();
        let detail = cat4(
            "name=",
            fixed.name.as_str(),
            " lore_repository_id=",
            fixed.lore_repository_id.as_str(),
        );
        let id = new_id();
        let ghost id_view = id@;
        let _ = self.inner.add_test_resource_with_id(fixed, id);
        assert(self.inner@ == old(self).inner@.with_resource(resources::filled(view, id_view)));
        assert(resources::normalized(given) == Ok::<ResourceView, CoreErrorView>(view));
        self.record("repository.add", "repository", resource_id.as_str(), detail.as_str());
        Ok(())
    }

    /// Removes a repository, as the store itself does, and records who did it.
    pub fn delete(&mut self, resource_id: &str) -> (r: Result<(), CoreError>)
        requires
            old(self).inner.wf(),
        ensures
            final(self).inner.wf(),
            final(self).actor == old(self).actor,
            match resource_id::resource_for(resource_id@) {
                None => error::outcome(r) == Err::<(), CoreErrorView>(
                    CoreErrorView::InvalidArgument("resource_id must not be empty"@),
                ) && final(self).inner@ == old(self).inner@,
                Some(id) => if old(self).inner@.resources.contains_key(id) {
                    r is Ok && old(self).inner@.without_resource(id).recorded(
                        old(self).actor@,
                        "repository.disable"@,
                        "repository"@,
                        id,
                        Seq::empty(),
                        final(self).inner@,
                    )
                } else {
                    error::outcome(r) == Err::<(), CoreErrorView>(CoreErrorView::NotFound)
                        && final(self).inner@ == old(self).inner@
                },
            },
    {
        let id = match ResourceID::for_repository_id(resource_id) {
            Some(id) => id,
            None => {
                return Err(invalid("resource_id must not be empty"));
            },
        };
        if let Err(e) = self.inner.delete(id.as_str()) {
            return Err(e);
        }
        proof {
            reveal_strlit("");
            assert(""@ =~= Seq::<char>::empty());
        }
        self.record("repository.disable", "repository", id.as_str(), "");
        Ok(())
    }
}

} // verus!
