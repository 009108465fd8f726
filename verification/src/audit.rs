//! The records of administrative changes.

use vstd::prelude::*;

use crate::ids;
use crate::ids::new_id;
use crate::model::{AdminAuditEntry, AdminAuditEntryView};
use crate::text::{cat2, cat4, cat5};
use crate::time::now_unix;

verus! {

/// The record of a change at the time `now`.
pub open spec fn entry(
    actor: Seq<char>,
    action: Seq<char>,
    object_type: Seq<char>,
    object_id: Seq<char>,
    detail: Seq<char>,
    id: Seq<char>,
    now: i64,
) -> AdminAuditEntryView {
    AdminAuditEntryView { id, actor, action, object_type, object_id, detail, created_at: now }
}

/// Whether `e` is a record of this change: all but its identifier and its time
/// is given.
pub open spec fn is_entry(
    e: AdminAuditEntryView,
    actor: Seq<char>,
    action: Seq<char>,
    object_type: Seq<char>,
    object_id: Seq<char>,
    detail: Seq<char>,
) -> bool {
    &&& ids::is_uuid(e.id)
    &&& e.created_at >= 0
    &&& e == entry(actor, action, object_type, object_id, detail, e.id, e.created_at)
}

/// The record of a change at the time `now`, under the identifier `id`.
pub fn admin_audit_entry_at(
    actor: &str,
    action: &str,
    object_type: &str,
    object_id: &str,
    detail: &str,
    id: String,
    now: i64,
) -> (r: AdminAuditEntry)
    ensures
        r@ == entry(actor@, action@, object_type@, object_id@, detail@, id@, now),
{
    AdminAuditEntry {
        id,
        actor: actor.to_owned(),
        action: action.to_owned(),
        object_type: object_type.to_owned(),
        object_id: object_id.to_owned(),
        detail: detail.to_owned(),
        created_at: now,
    }
}

/// The record of a change.
pub fn admin_audit_entry(
    actor: &str,
    action: &str,
    object_type: &str,
    object_id: &str,
    detail: &str,
) -> (r: AdminAuditEntry)
    ensures
        is_entry(r@, actor@, action@, object_type@, object_id@, detail@),
{
    let id = new_id();
    let now: i64 = now_unix();
    admin_audit_entry_at(actor, action, object_type, object_id, detail, id, now)
}

/// What is recorded of a grant.
pub open spec fn grant_details(
    subject_type: Seq<char>,
    subject_id: Seq<char>,
    repo: Seq<char>,
    role: Seq<char>,
) -> Seq<char> {
    "subject_type="@ + subject_type + " subject_id="@ + subject_id + " repo="@ + repo + " role="@
        + role
}

/// What is recorded of a grant.
pub fn grant_detail(subject_type: &str, subject_id: &str, repo: &str, role: &str) -> (r: String)
    ensures
        r@ == grant_details(subject_type@, subject_id@, repo@, role@),
{
    let left = cat4("subject_type=", subject_type, " subject_id=", subject_id);
    cat5(left.as_str(), " repo=", repo, " role=", role)
}

/// What a grant is called once it is gone.
pub open spec fn grant_name(
    subject_type: Seq<char>,
    subject_id: Seq<char>,
    repo: Seq<char>,
    role: Seq<char>,
) -> Seq<char> {
    subject_type + ":"@ + subject_id + ":"@ + repo + ":"@ + role
}

/// What a grant is called once it is gone.
pub fn gone_grant(subject_type: &str, subject_id: &str, repo: &str, role: &str) -> (r: String)
    ensures
        r@ == grant_name(subject_type@, subject_id@, repo@, role@),
{
    let left = cat5(subject_type, ":", subject_id, ":", repo);
    let mut out = cat2(left.as_str(), ":");
    out.append(role);
    out
}

/// A record says who did what to what, with the details that were given, under an
/// identifier and a time of its own.
pub proof fn law_record_says_what_was_done(
    e: AdminAuditEntryView,
    actor: Seq<char>,
    action: Seq<char>,
    object_type: Seq<char>,
    object_id: Seq<char>,
    detail: Seq<char>,
)
    ensures
        is_entry(e, actor, action, object_type, object_id, detail) <==> {
            &&& e.actor == actor
            &&& e.action == action
            &&& e.object_type == object_type
            &&& e.object_id == object_id
            &&& e.detail == detail
            &&& ids::is_uuid(e.id)
            &&& e.created_at >= 0
        },
{
}

/// The details of a grant name all four of its parts, one after the other.
pub proof fn law_grant_is_named_in_full(
    subject_type: Seq<char>,
    subject_id: Seq<char>,
    repo: Seq<char>,
    role: Seq<char>,
)
    ensures
        grant_details(subject_type, subject_id, repo, role) == "subject_type="@ + subject_type
            + " subject_id="@ + subject_id + " repo="@ + repo + " role="@ + role,
        grant_name(subject_type, subject_id, repo, role) == subject_type + ":"@ + subject_id
            + ":"@ + repo + ":"@ + role,
{
}

} // verus!
