//! The records of administrative changes to the store.

use vstd::prelude::*;

use crate::audit;
use crate::audit::{admin_audit_entry, gone_grant, grant_detail};
use crate::error::{CoreError, CoreErrorView};
use crate::model::{AdminAuditEntry, IdentityInvitation, SigningKeyMeta, User};
use crate::resource_id;
use crate::resource_id::ResourceID;
use crate::text;
use crate::text::{cat2, cat4, decimal_text};

verus! {

/// The error for a change that was undone because it could not be recorded.
pub fn admin_audit_failed(why: &str) -> (r: CoreError)
    ensures
        r@ == CoreErrorView::AdminAuditFailed(why@),
{
    CoreError::AdminAuditFailed(why.to_owned())
}

/// The record of a new signing key.
pub fn signing_key_generated(actor: &str, key: &SigningKeyMeta, bits: u32) -> (r: AdminAuditEntry)
    ensures
        audit::is_entry(
            r@,
            actor@,
            "signing_key.generate"@,
            "signing_key"@,
            key@.kid,
            "kid="@ + key@.kid + " alg="@ + key@.alg + " bits="@ + text::decimal(bits as nat),
        ),
{
    let left = cat4("kid=", key.kid.as_str(), " alg=", key.alg.as_str());
    let mut detail = cat2(left.as_str(), " bits=");
    detail.append(decimal_text(bits as u64).as_str());
    admin_audit_entry(
        actor,
        "signing_key.generate",
        "signing_key",
        key.kid.as_str(),
        detail.as_str(),
    )
}

/// The record of a new grant.
pub fn grant_added(
    actor: &str,
    grant_id: &str,
    subject_type: &str,
    subject_id: &str,
    repo: &str,
    role: &str,
) -> (r: AdminAuditEntry)
    ensures
        audit::is_entry(
            r@,
            actor@,
            "grant.add"@,
            "grant"@,
            grant_id@,
            audit::grant_details(subject_type@, subject_id@, repo@, role@),
        ),
{
    admin_audit_entry(
        actor,
        "grant.add",
        "grant",
        grant_id,
        grant_detail(subject_type, subject_id, repo, role).as_str(),
    )
}

/// The record of a grant that was taken back.
pub fn grant_removed(
    actor: &str,
    subject_type: &str,
    subject_id: &str,
    repo: &str,
    role: &str,
) -> (r: AdminAuditEntry)
    ensures
        audit::is_entry(
            r@,
            actor@,
            "grant.remove"@,
            "grant"@,
            audit::grant_name(subject_type@, subject_id@, repo@, role@),
            audit::grant_details(subject_type@, subject_id@, repo@, role@),
        ),
{
    admin_audit_entry(
        actor,
        "grant.remove",
        "grant",
        gone_grant(subject_type, subject_id, repo, role).as_str(),
        grant_detail(subject_type, subject_id, repo, role).as_str(),
    )
}

/// The record of a new user.
pub fn user_added(actor: &str, user: &User) -> (r: AdminAuditEntry)
    ensures
        audit::is_entry(
            r@,
            actor@,
            "user.add"@,
            "user"@,
            user@.id,
            "email="@ + user@.email,
        ),
{
    admin_audit_entry(
        actor,
        "user.add",
        "user",
        user.id.as_str(),
        cat2("email=", user.email.as_str()).as_str(),
    )
}

/// The record of a user who may no longer log in.
pub fn user_disabled(actor: &str, user: &User) -> (r: AdminAuditEntry)
    ensures
        audit::is_entry(
            r@,
            actor@,
            "user.disable"@,
            "user"@,
            user@.id,
            "email="@ + user@.email,
        ),
{
    admin_audit_entry(
        actor,
        "user.disable",
        "user",
        user.id.as_str(),
        cat2("email=", user.email.as_str()).as_str(),
    )
}

/// The record of a user who may log in again.
pub fn user_enabled(actor: &str, user: &User) -> (r: AdminAuditEntry)
    ensures
        audit::is_entry(
            r@,
            actor@,
            "user.enable"@,
            "user"@,
            user@.id,
            "email="@ + user@.email,
        ),
{
    admin_audit_entry(
        actor,
        "user.enable",
        "user",
        user.id.as_str(),
        cat2("email=", user.email.as_str()).as_str(),
    )
}

/// The record of an invitation.
pub fn user_invited(actor: &str, user: &User, invitation: &IdentityInvitation) -> (r: AdminAuditEntry)
    ensures
        audit::is_entry(
            r@,
            actor@,
            "user.invite"@,
            "user"@,
            user@.id,
            "email="@ + user@.email + " invitation_id="@ + invitation@.id,
        ),
{
    admin_audit_entry(
        actor,
        "user.invite",
        "user",
        user.id.as_str(),
        cat4("email=", user.email.as_str(), " invitation_id=", invitation.id.as_str()).as_str(),
    )
}

/// The record of a repository that was stored.
pub fn repository_added(actor: &str, resource_id: &str, name: &str) -> (r: AdminAuditEntry)
    ensures
        audit::is_entry(
            r@,
            actor@,
            "repository.add"@,
            "repository"@,
            resource_id@,
            "name="@ + name@ + " lore_repository_id="@ + resource_id::repository_of(resource_id@),
        ),
{
    let id = ResourceID::repository_id_from_resource_id(resource_id);
    let detail = cat4("name=", name, " lore_repository_id=", id.as_str());
    admin_audit_entry(
        actor,
        "repository.add",
        "repository",
        resource_id,
        detail.as_str(),
    )
}

/// The record of a repository that was taken out of use.
pub fn repository_disabled(actor: &str, resource_id: &str) -> (r: AdminAuditEntry)
    ensures
        audit::is_entry(
            r@,
            actor@,
            "repository.disable"@,
            "repository"@,
            resource_id@,
            ""@,
        ),
{
    admin_audit_entry(
        actor,
        "repository.disable",
        "repository",
        resource_id,
        "",
    )
}

/// The record of a new group.
pub fn group_added(actor: &str, id: &str, name: &str) -> (r: AdminAuditEntry)
    ensures
        audit::is_entry(
            r@,
            actor@,
            "group.add"@,
            "group"@,
            id@,
            "name="@ + name@,
        ),
{
    admin_audit_entry(
        actor,
        "group.add",
        "group",
        id,
        cat2("name=", name).as_str(),
    )
}

/// The record of a user who was put in a group.
pub fn member_added(actor: &str, group: &str, user: &str) -> (r: AdminAuditEntry)
    ensures
        audit::is_entry(
            r@,
            actor@,
            "group.member.add"@,
            "group"@,
            group@,
            "user="@ + user@,
        ),
{
    admin_audit_entry(
        actor,
        "group.member.add",
        "group",
        group,
        cat2("user=", user).as_str(),
    )
}

/// The record of a user who was taken out of a group.
pub fn member_removed(actor: &str, group: &str, user: &str) -> (r: AdminAuditEntry)
    ensures
        audit::is_entry(
            r@,
            actor@,
            "group.member.remove"@,
            "group"@,
            group@,
            "user="@ + user@,
        ),
{
    admin_audit_entry(
        actor,
        "group.member.remove",
        "group",
        group,
        cat2("user=", user).as_str(),
    )
}

/// The record of a group that was put in another one.
pub fn nesting_added(actor: &str, parent_group: &str, member_group: &str) -> (r: AdminAuditEntry)
    ensures
        audit::is_entry(
            r@,
            actor@,
            "group.nest.add"@,
            "group"@,
            parent_group@,
            "member_group="@ + member_group@,
        ),
{
    admin_audit_entry(
        actor,
        "group.nest.add",
        "group",
        parent_group,
        cat2("member_group=", member_group).as_str(),
    )
}

/// The record of a group that was taken out of another one.
pub fn nesting_removed(actor: &str, parent_group: &str, member_group: &str) -> (r: AdminAuditEntry)
    ensures
        audit::is_entry(
            r@,
            actor@,
            "group.nest.remove"@,
            "group"@,
            parent_group@,
            "member_group="@ + member_group@,
        ),
{
    admin_audit_entry(
        actor,
        "group.nest.remove",
        "group",
        parent_group,
        cat2("member_group=", member_group).as_str(),
    )
}

} // verus!
