//! Which repository is meant.

use vstd::prelude::*;

use crate::error;
use crate::error::{invalid, CoreError, CoreErrorView};
use crate::model::{Resource, ResourceView};
use crate::resource_id;
use crate::resource_id::{normalize_valid_lore_repository_id, ResourceID};
use crate::text;
use crate::text::is_blank;

verus! {

/// What is said of an identifier that no repository can have.
pub open spec fn bad_repository_id() -> CoreErrorView {
    CoreErrorView::InvalidArgument(
        "lore_repository_id must be 1-128 characters of A-Z, a-z, 0-9, '-' or '_'"@,
    )
}

/// The identifier of the repository that is meant: by its resource, or else by itself.
pub open spec fn meant_repository(resource: ResourceView) -> Result<Seq<char>, CoreErrorView> {
    let id = if text::trimmed(resource.resource_id).len() == 0 {
        resource.lore_repository_id
    } else {
        resource_id::repository_of(text::trimmed(resource.resource_id))
    };
    match resource_id::valid_repository_id(id) {
        Some(id) => Ok(id),
        None => Err(bad_repository_id()),
    }
}

/// The identifier of the resource that is meant.
pub open spec fn meant_resource(resource: ResourceView) -> Result<Seq<char>, CoreErrorView> {
    match meant_repository(resource) {
        Err(e) => Err(e),
        Ok(repository) => match resource_id::resource_for(repository) {
            Some(id) => Ok(id),
            None => Err(CoreErrorView::InvalidArgument("resource_id is required"@)),
        },
    }
}

/// The identifier of a repository without the whitespace around it, if it is one.
pub fn validated_lore_repository_id(value: &str) -> (r: Result<String, CoreError>)
    ensures
        error::outcome(r) == match resource_id::valid_repository_id(value@) {
            Some(id) => Ok::<Seq<char>, CoreErrorView>(id),
            None => Err(bad_repository_id()),
        },
{
    match normalize_valid_lore_repository_id(value) {
        Some(id) => Ok(id),
        None => Err(
            invalid("lore_repository_id must be 1-128 characters of A-Z, a-z, 0-9, '-' or '_'"),
        ),
    }
}

/// The identifier of the repository that is meant.
pub fn repository_id_of(resource: &Resource) -> (r: Result<String, CoreError>)
    ensures
        error::outcome(r) == meant_repository(resource@),
{
    if is_blank(resource.resource_id.as_str()) {
        validated_lore_repository_id(resource.lore_repository_id.as_str())
    } else {
        let id = ResourceID::repository_id_from_resource_id(resource.resource_id.as_str().trim());
        validated_lore_repository_id(id.as_str())
    }
}

/// The identifier of the resource that is meant.
pub fn resource_id_from_resource(resource: &Resource) -> (r: Result<String, CoreError>)
    ensures
        error::outcome(r) == meant_resource(resource@),
{
    match repository_id_of(resource) {
        Err(e) => Err(e),
        Ok(repository_id) => match ResourceID::for_repository_id(repository_id.as_str()) {
            Some(id) => Ok(id),
            None => Err(invalid("resource_id is required")),
        },
    }
}

/// A repository is meant by its resource, or by its identifier where no resource is given;
/// it must be a proper identifier either way.
pub proof fn law_which_repository_is_meant(resource: ResourceView, id: Seq<char>)
    ensures
        text::trimmed(resource.resource_id) == "urc-"@ + id && resource_id::is_repository_id(id)
            ==> meant_repository(resource) == Ok::<_, CoreErrorView>(id),
        text::trimmed(resource.resource_id) == "urc-"@ + id && !resource_id::is_repository_id(
            text::trimmed(id),
        ) ==> meant_repository(resource) is Err,
        text::trimmed(resource.resource_id).len() == 0 && text::trimmed(resource.lore_repository_id)
            == id && resource_id::is_repository_id(id) ==> meant_repository(resource) == Ok::<
            _,
            CoreErrorView,
        >(id),
        text::trimmed(resource.resource_id).len() == 0 && !resource_id::is_repository_id(
            text::trimmed(resource.lore_repository_id),
        ) ==> meant_repository(resource) is Err,
        meant_repository(resource) == Ok::<_, CoreErrorView>(id) && !text::has_prefix(id, "urc-"@)
            ==> meant_resource(resource) == Ok::<_, CoreErrorView>("urc-"@ + id),
        meant_repository(resource) is Err ==> meant_resource(resource) is Err,
{
    reveal_strlit("urc-");
    resource_id::law_what_stands_behind_the_prefix(id, id);
    if resource_id::is_repository_id(id) {
        resource_id::lemma_repository_id_is_trimmed(id);
    }
    if let Ok(meant) = meant_repository(resource) {
        resource_id::lemma_repository_id_is_trimmed(meant);
    }
}

} // verus!
