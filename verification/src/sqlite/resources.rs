//! Repositories.

use vstd::prelude::*;

use crate::authz::gather;
use crate::authz::gather::resource_of;
use crate::error;
use crate::error::{invalid, CoreError, CoreErrorView};
use crate::model::{Resource, ResourceView};
use crate::repositories;
use crate::repositories::resource_id_from_resource;
use crate::resource_id;
use crate::resource_id::ResourceID;
use crate::text;
use crate::text::{cat2, cat3, cat4, is_blank, same};

verus! {

/// A repository to store.
#[derive(Debug, PartialEq, Eq)]
pub struct ResourcePlan {
    pub lore_repository_id: String,
    pub name: String,
    pub remote_url: String,
    /// Whether the repository was entered by hand: it has a place of its own.
    pub manual: bool,
}

/// The view of [`ResourcePlan`].
#[verifier::ext_equal]
pub struct ResourcePlanView {
    pub lore_repository_id: Seq<char>,
    pub name: Seq<char>,
    pub remote_url: Seq<char>,
    pub manual: bool,
}

impl View for ResourcePlan {
    type V = ResourcePlanView;

    open spec fn view(&self) -> ResourcePlanView {
        ResourcePlanView {
            lore_repository_id: self.lore_repository_id@,
            name: self.name@,
            remote_url: self.remote_url@,
            manual: self.manual,
        }
    }
}

/// A repository to store. Without a name it goes by its identifier; one that has
/// no place of its own is stored without one.
pub open spec fn plan_of(resource: ResourceView) -> Result<ResourcePlanView, CoreErrorView> {
    match repositories::meant_resource(resource) {
        Err(e) => Err(e),
        Ok(id) => {
            let repository = resource_id::repository_of(id);
            let manual = text::trimmed(resource.remote_url).len() > 0;
            Ok(
                ResourcePlanView {
                    lore_repository_id: repository,
                    name: if text::trimmed(resource.name).len() == 0 {
                        repository
                    } else {
                        resource.name
                    },
                    remote_url: if manual {
                        resource.remote_url
                    } else {
                        Seq::empty()
                    },
                    manual,
                },
            )
        },
    }
}

/// A repository to store.
pub fn upsert_plan(resource: Resource) -> (r: Result<ResourcePlan, CoreError>)
    ensures
        error::outcome(r) == plan_of(resource@),
{
    let resource_id = match resource_id_from_resource(&resource) {
        Ok(id) => id,
        Err(e) => return Err(e),
    };
    let lore_repository_id = ResourceID::repository_id_from_resource_id(resource_id.as_str());
    let name = if is_blank(resource.name.as_str()) {
        lore_repository_id.clone()
    } else {
        resource.name
    };
    if is_blank(resource.remote_url.as_str()) {
        let nothing = String::new();
        assert(nothing@ =~= Seq::<char>::empty());
        Ok(ResourcePlan { lore_repository_id, name, remote_url: nothing, manual: false })
    } else {
        Ok(ResourcePlan { lore_repository_id, name, remote_url: resource.remote_url, manual: true })
    }
}

/// A repository as it is stored, and who stored it.
#[derive(Debug, PartialEq, Eq)]
pub struct ResourceWithSource {
    pub resource: Resource,
    pub created_by_source: String,
}

/// What to do with a repository that was entered by hand.
#[derive(Debug, PartialEq, Eq)]
pub enum ManualStep {
    /// The one with this identifier is to be changed.
    Update(String),
    /// It is to be added.
    Insert,
}

/// What to do with a repository that was entered by hand, by what is stored
/// under its identifier.
pub open spec fn manual_step(existing: Option<(ResourceView, Seq<char>)>) -> Result<
    Option<Seq<char>>,
    CoreErrorView,
> {
    match existing {
        None => Ok(None),
        Some((resource, source)) => if source != "manual"@ {
            Err(
                CoreErrorView::InvalidArgument(
                    "repository "@ + resource.lore_repository_id + " is managed by "@ + source,
                ),
            )
        } else {
            Ok(Some(resource.id))
        },
    }
}

/// What to do with a repository that was entered by hand.
pub fn plan_manual(existing: Option<ResourceWithSource>) -> (r: Result<ManualStep, CoreError>)
    ensures
        ({
            let found = match existing {
                Some(e) => Some((e.resource@, e.created_by_source@)),
                None => None,
            };
            match r {
                Ok(ManualStep::Update(id)) => manual_step(found) == Ok::<
                    Option<Seq<char>>,
                    CoreErrorView,
                >(Some(id@)),
                Ok(ManualStep::Insert) => manual_step(found) == Ok::<
                    Option<Seq<char>>,
                    CoreErrorView,
                >(None),
                Err(e) => manual_step(found) == Err::<Option<Seq<char>>, _>(e@),
            }
        }),
{
    match existing {
        None => Ok(ManualStep::Insert),
        Some(existing) => if same(existing.created_by_source.as_str(), "manual") {
            Ok(ManualStep::Update(existing.resource.id))
        } else {
            Err(
                invalid(
                    cat4(
                        "repository ",
                        existing.resource.lore_repository_id.as_str(),
                        " is managed by ",
                        existing.created_by_source.as_str(),
                    ).as_str(),
                ),
            )
        },
    }
}

/// The source that a new repository is stored with.
pub open spec fn source_of(manual: bool) -> Seq<char> {
    if manual {
        "manual"@
    } else {
        "rebac_create_resource"@
    }
}

/// The source that a new repository is stored with.
pub fn new_source(manual: bool) -> (r: &'static str)
    ensures
        r@ == source_of(manual),
{
    if manual {
        "manual"
    } else {
        "rebac_create_resource"
    }
}

/// A repository as it is read.
pub open spec fn resource_in(
    id: Seq<char>,
    name: Seq<char>,
    remote_url: Seq<char>,
    lore_repository_id: Seq<char>,
    status: Seq<char>,
) -> ResourceView {
    ResourceView {
        id,
        name,
        remote_url,
        resource_id: gather::resource_or_empty(lore_repository_id),
        lore_repository_id,
        status,
    }
}

/// A repository as it is read.
pub fn resource_from_row(
    id: String,
    name: String,
    remote_url: String,
    lore_repository_id: String,
    status: String,
) -> (r: Resource)
    ensures
        r@ == resource_in(id@, name@, remote_url@, lore_repository_id@, status@),
{
    let resource_id = resource_of(lore_repository_id.as_str());
    Resource { id, name, remote_url, resource_id, lore_repository_id, status }
}

/// What is read of a repository.
pub const RESOURCE_SELECT: &'static str =
    "SELECT id, name, remote_url, lore_repository_id, status, created_by_source FROM repositories";

/// The query for repositories that meet a condition.
pub fn resource_select_sql(clause: &str) -> (r: String)
    ensures
        r@ == RESOURCE_SELECT@ + " WHERE "@ + clause@,
{
    cat3(RESOURCE_SELECT, " WHERE ", clause)
}

/// The query for all active repositories.
pub fn resource_list_sql() -> (r: String)
    ensures
        r@ == RESOURCE_SELECT@ + " WHERE status = 'active' ORDER BY name"@,
{
    cat2(RESOURCE_SELECT, " WHERE status = 'active' ORDER BY name")
}

/// A repository that is stored is read back under the identifier of the resource
/// that was meant.
pub proof fn law_stored_resource_is_found_by_its_resource(
    resource: ResourceView,
    id: Seq<char>,
    status: Seq<char>,
)
    requires
        plan_of(resource) is Ok,
        !text::has_prefix(plan_of(resource)->Ok_0.lore_repository_id, "urc-"@),
    ensures
        ({
            let plan = plan_of(resource)->Ok_0;
            let read = resource_in(id, plan.name, plan.remote_url, plan.lore_repository_id, status);
            read.resource_id == repositories::meant_resource(resource)->Ok_0
        }),
{
    let meant = repositories::meant_resource(resource)->Ok_0;
    let repository = repositories::meant_repository(resource)->Ok_0;
    let rest = resource_id::repository_of(text::trimmed(repository));
    let plan = plan_of(resource)->Ok_0;
    assert(meant == "urc-"@ + rest);
    assert(meant.subrange(0, "urc-"@.len() as int) =~= "urc-"@);
    assert(meant.skip("urc-"@.len() as int) =~= rest);
    assert(plan.lore_repository_id == rest);
    assert(resource_id::is_repository_id(rest)) by {
        resource_id::lemma_repository_id_is_trimmed(repository);
        assert forall|i: int| 0 <= i < rest.len() implies resource_id::is_repository_char(
            #[trigger] rest[i],
        ) by {
            let at = if rest.len() == repository.len() {
                i
            } else {
                i + "urc-"@.len()
            };
            assert(rest[i] == repository[at]);
        }
    }
    resource_id::law_resource_stands_for_its_repository(rest);
}

} // verus!
