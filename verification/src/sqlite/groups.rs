//! Groups, and groups in groups.

use vstd::prelude::*;

use crate::error::{invalid, CoreError, CoreErrorView};
use crate::ids;
use crate::ids::new_id;
use crate::model::{Group, GroupView};
use crate::nesting;
use crate::sqlite;
use crate::sqlite::or_empty;
use crate::text;
use crate::text::{is_blank, same};

verus! {

/// A new group.
pub open spec fn group_of(name: Seq<char>, description: Seq<char>, id: Seq<char>) -> GroupView {
    GroupView { id, name: text::trimmed(name), description }
}

/// A new group under this identifier.
pub fn new_group_with_id(name: &str, description: &str, id: String) -> (r: Result<Group, CoreError>)
    ensures
        match r {
            Ok(group) => {
                &&& text::trimmed(name@).len() > 0
                &&& group@ == group_of(name@, description@, id@)
            },
            Err(e) => {
                &&& text::trimmed(name@).len() == 0
                &&& e@ == CoreErrorView::InvalidArgument("group name must not be empty"@)
            },
        },
{
    if is_blank(name) {
        return Err(invalid("group name must not be empty"));
    }
    Ok(Group { id, name: name.trim().to_owned(), description: description.to_owned() })
}

/// A new group.
pub fn new_group(name: &str, description: &str) -> (r: Result<Group, CoreError>)
    ensures
        match r {
            Ok(group) => {
                &&& text::trimmed(name@).len() > 0
                &&& ids::is_uuid(group@.id)
                &&& group@ == group_of(name@, description@, group@.id)
            },
            Err(e) => {
                &&& text::trimmed(name@).len() == 0
                &&& e@ == CoreErrorView::InvalidArgument("group name must not be empty"@)
            },
        },
{
    new_group_with_id(name, description, new_id())
}

/// A group as it is read.
pub fn group_from_row(id: String, name: String, description: Option<String>) -> (r: Group)
    ensures
        r@ == (GroupView {
            id: id@,
            name: name@,
            description: sqlite::read_back(text::opt_text(description)),
        }),
{
    Group { id, name, description: or_empty(description) }
}

/// What to do about a group that is to be in another one.
#[derive(Clone, Copy, Debug, PartialEq, Eq, Structural)]
pub enum NestStep {
    /// It is there already: there is nothing to do.
    Keep,
    /// It is to be put there.
    Insert,
}

/// What to do about a group that is to be in another one, by whether it is there
/// already and whether the other one is inside it.
pub open spec fn nest_step(
    parent: Seq<char>,
    member: Seq<char>,
    exists_already: bool,
    would_cycle: bool,
) -> Result<NestStep, CoreErrorView> {
    if parent == member {
        Err(CoreErrorView::InvalidArgument("group cannot contain itself"@))
    } else if exists_already {
        Ok(NestStep::Keep)
    } else if would_cycle {
        Err(CoreErrorView::InvalidArgument("group nesting would create a cycle"@))
    } else {
        Ok(NestStep::Insert)
    }
}

/// Fails for a group that is to be in itself.
pub fn check_not_itself(parent_group_id: &str, member_group_id: &str) -> (r: Result<(), CoreError>)
    ensures
        match r {
            Ok(()) => parent_group_id@ != member_group_id@,
            Err(e) => parent_group_id@ == member_group_id@ && e@ == CoreErrorView::InvalidArgument(
                "group cannot contain itself"@,
            ),
        },
{
    if same(parent_group_id, member_group_id) {
        Err(invalid("group cannot contain itself"))
    } else {
        Ok(())
    }
}

/// What to do about a group that is to be in another one.
pub fn plan_nesting(
    parent_group_id: &str,
    member_group_id: &str,
    exists_already: bool,
    would_cycle: bool,
) -> (r: Result<NestStep, CoreError>)
    ensures
        match r {
            Ok(step) => nest_step(parent_group_id@, member_group_id@, exists_already, would_cycle)
                == Ok::<NestStep, CoreErrorView>(step),
            Err(e) => nest_step(parent_group_id@, member_group_id@, exists_already, would_cycle)
                == Err::<NestStep, _>(e@),
        },
{
    if let Err(e) = check_not_itself(parent_group_id, member_group_id) {
        return Err(e);
    }
    if exists_already {
        return Ok(NestStep::Keep);
    }
    if would_cycle {
        return Err(invalid("group nesting would create a cycle"));
    }
    Ok(NestStep::Insert)
}

/// As long as it is asked whether the parent is inside the member, no group ever
/// comes to be inside itself.
pub proof fn law_nesting_makes_no_cycle(
    edges: Seq<(Seq<char>, Seq<char>)>,
    parent: Seq<char>,
    member: Seq<char>,
)
    requires
        nesting::acyclic(edges),
        nest_step(
            parent,
            member,
            edges.contains((member, parent)),
            nesting::inside(edges, parent, member),
        ) == Ok::<NestStep, CoreErrorView>(NestStep::Insert),
    ensures
        nesting::acyclic(edges.push((member, parent))),
{
    nesting::lemma_push_keeps_acyclic(edges, member, parent);
}

} // verus!
