//! The versions of the schema.

use vstd::prelude::*;

use crate::text;
use crate::text::has_member;

verus! {

/// The first version.
pub const BASELINE_VERSION: &'static str = "phase2b_baseline_20260702";

/// The version that brought groups in groups.
pub const GROUP_GROUPS_VERSION: &'static str = "phase3_group_groups_20260702";

/// The version that brought the records of administrative changes.
pub const ADMIN_AUDIT_VERSION: &'static str = "phase4_admin_audit_20260702";

/// The versions that a schema has to have been brought to.
pub open spec fn required() -> Seq<Seq<char>> {
    seq![BASELINE_VERSION@, GROUP_GROUPS_VERSION@, ADMIN_AUDIT_VERSION@]
}

/// The versions that a schema has to have been brought to, in order.
pub fn required_versions() -> (r: Vec<String>)
    ensures
        text::texts(r@) == required(),
{
    let mut out: Vec<String> = Vec::new();
    out.push(BASELINE_VERSION.to_owned());
    out.push(GROUP_GROUPS_VERSION.to_owned());
    out.push(ADMIN_AUDIT_VERSION.to_owned());
    assert(text::texts(out@) =~= required());
    out
}

/// Whether a schema that was brought to these versions can be used.
pub open spec fn is_current(applied: Seq<Seq<char>>) -> bool {
    forall|i: int| 0 <= i < required().len() ==> applied.contains(#[trigger] required()[i])
}

/// Whether a schema that was brought to these versions can be used.
pub fn schema_is_current(applied: &Vec<String>) -> (r: bool)
    ensures
        r == is_current(text::texts(applied@)),
{
    let versions = required_versions();
    assert(text::texts(versions@).len() == versions@.len());
    let mut i: usize = 0;
    while i < versions.len()
        invariant
            i <= versions@.len(),
            versions@.len() == required().len(),
            text::texts(versions@) == required(),
            forall|j: int|
                0 <= j < i ==> text::texts(applied@).contains(#[trigger] required()[j]),
        decreases versions@.len() - i,
    {
        assert(text::texts(versions@)[i as int] == versions@[i as int]@);
        if !has_member(applied, versions[i].as_str()) {
            assert(!text::texts(applied@).contains(required()[i as int]));
            return false;
        }
        i += 1;
    }
    true
}

/// A schema that was brought to the versions that it has to have can be used,
/// whatever it was brought to before.
pub proof fn law_migrated_schema_is_current(before: Seq<Seq<char>>)
    ensures
        is_current(before + required()),
{
    let all = before + required();
    assert forall|i: int| 0 <= i < required().len() implies all.contains(
        #[trigger] required()[i],
    ) by {
        assert(all[before.len() + i] == required()[i]);
    }
}

} // verus!
