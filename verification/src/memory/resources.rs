//! Repositories.

use vstd::prelude::*;

use crate::error;
use crate::error::{invalid, CoreError, CoreErrorView};
use crate::ids;
use crate::ids::new_id;
use crate::memory::{Store, StoreView};
use crate::model::{Resource, ResourceView};
use crate::order;
use crate::order::sort;
use crate::repositories;
use crate::repositories::repository_id_of;
use crate::resource_id;
use crate::resource_id::ResourceID;
use crate::table;
use crate::table::Pick;
use crate::text::same;

verus! {

/// A repository with its two identifiers in order.
pub open spec fn normalized(resource: ResourceView) -> Result<ResourceView, CoreErrorView> {
    match (repositories::meant_repository(resource), repositories::meant_resource(resource)) {
        (Ok(repository), Ok(id)) => Ok(
            ResourceView { lore_repository_id: repository, resource_id: id, ..resource },
        ),
        (Err(e), _) => Err(e),
        (_, Err(e)) => Err(e),
    }
}

/// A repository with what is missing filled in; `id` is for one without identifier.
pub open spec fn filled(resource: ResourceView, id: Seq<char>) -> ResourceView {
    let resource_id = if resource.resource_id.len() == 0 {
        match resource_id::resource_for(resource.lore_repository_id) {
            Some(r) => r,
            None => Seq::empty(),
        }
    } else {
        resource.resource_id
    };
    ResourceView {
        id: if resource.id.len() == 0 {
            id
        } else {
            resource.id
        },
        resource_id,
        lore_repository_id: if resource.lore_repository_id.len() == 0 {
            resource_id::repository_of(resource_id)
        } else {
            resource.lore_repository_id
        },
        status: if resource.status.len() == 0 {
            "active"@
        } else {
            resource.status
        },
        ..resource
    }
}

/// A repository with its two identifiers in order.
pub fn normalize_resource_for_upsert(resource: Resource) -> (r: Result<Resource, CoreError>)
    ensures
        error::outcome(r) == normalized(resource@),
{
    let repository_id = match repository_id_of(&resource) {
        Ok(id) => id,
        Err(e) => {
            return Err(e);
        },
    };
    match ResourceID::for_repository_id(repository_id.as_str()) {
        None => Err(invalid("resource_id is required")),
        Some(id) => {
            let mut out = resource;
            out.lore_repository_id = repository_id;
            out.resource_id = id;
            Ok(out)
        },
    }
}

impl StoreView {
    /// The store with a repository, in place of one with the same resource.
    pub open spec fn with_resource(self, resource: ResourceView) -> StoreView {
        StoreView { resources: self.resources.insert(resource.resource_id, resource), ..self }
    }

    /// The store without the repository of that resource.
    pub open spec fn without_resource(self, k: Seq<char>) -> StoreView {
        StoreView { resources: self.resources.remove(k), ..self }
    }

    /// The repositories that are not deleted.
    pub open spec fn live_resources(self) -> Set<ResourceView> {
        Set::new(
            |r: ResourceView|
                {
                    &&& self.resources.contains_key(r.resource_id)
                    &&& self.resources[r.resource_id] == r
                    &&& r.status != "deleted"@
                },
        )
    }

    /// Whether `r` is one of the repositories.
    pub open spec fn is_resource(self, r: ResourceView) -> bool {
        self.resources.contains_key(r.resource_id) && self.resources[r.resource_id] == r
    }
}

/// What is asked for: repositories that are not deleted.
struct LiveResource;

impl Pick<Resource> for LiveResource {
    closed spec fn picks(&self, v: ResourceView) -> bool {
        v.status != "deleted"@
    }

    fn pick(&self, v: &Resource) -> (r: bool) {
        !same(v.status.as_str(), "deleted")
    }
}

impl Store {
    /// Puts a repository into the store, in place of one with the same resource.
    pub(crate) fn put_resource(&mut self, resource: Resource)
        requires
            old(self).wf(),
        ensures
            final(self).wf(),
            final(self)@ == old(self)@.with_resource(resource@),
    {
        let ghost before = self@;
        let ghost view = resource@;
        self.resources.insert(resource.resource_id.clone(), resource);
        assert(self@ =~= before.with_resource(view));
    }

    /// Puts a repository into the store as it is, with what is missing filled in.
    pub fn add_test_resource_with_id(&mut self, resource: Resource, id: String) -> (r: Resource)
        requires
            old(self).wf(),
        ensures
            final(self).wf(),
            r@ == filled(resource@, id@),
            final(self)@ == old(self)@.with_resource(r@),
    {
        let ghost given = resource@;
        let mut out = resource;
        if out.id.is_empty() {
            out.id = id;
        }
        if out.resource_id.is_empty() {
            out.resource_id =
            match ResourceID::for_repository_id(out.lore_repository_id.as_str()) {
                Some(resource_id) => resource_id,
                None => String::new(),
            };
            assert(resource_id::resource_for(given.lore_repository_id) is None ==> out@.resource_id
                =~= Seq::<char>::empty());
        }
        if out.lore_repository_id.is_empty() {
            out.lore_repository_id =
            ResourceID::repository_id_from_resource_id(out.resource_id.as_str());
        }
        if out.status.is_empty() {
            out.status = "active".to_owned();
        }
        assert(out@ =~= filled(given, id@));
        self.put_resource(out.clone());
        out
    }

    /// Puts a repository into the store as it is, with what is missing filled in.
    pub fn add_test_resource(&mut self, resource: Resource) -> (r: Resource)
        requires
            old(self).wf(),
        ensures
            final(self).wf(),
            exists|id: Seq<char>| ids::is_uuid(id) && r@ == #[trigger] filled(resource@, id),
            final(self)@ == old(self)@.with_resource(r@),
    {
        let id = new_id();
        let ghost id_view = id@;
        let r = self.add_test_resource_with_id(resource, id);
        assert(ids::is_uuid(id_view) && r@ == filled(resource@, id_view));
        r
    }

    /// Adds a repository, or changes it.
    pub fn upsert_with_id(&mut self, resource: Resource, id: String) -> (r: Result<(), CoreError>)
        requires
            old(self).wf(),
        ensures
            final(self).wf(),
            match normalized(resource@) {
                Ok(n) => r is Ok && final(self)@ == old(self)@.with_resource(filled(n, id@)),
                Err(e) => error::outcome(r) == Err::<(), CoreErrorView>(e) && final(self)@ == old(self)@,
            },
    {
        match normalize_resource_for_upsert(resource) {
            Ok(n) => {
                let _ = self.add_test_resource_with_id(n, id);
                Ok(())
            },
            Err(e) => Err(e),
        }
    }

    /// Adds a repository, or changes it.
    pub fn upsert(&mut self, resource: Resource) -> (r: Result<(), CoreError>)
        requires
            old(self).wf(),
        ensures
            final(self).wf(),
            match normalized(resource@) {
                Ok(n) => r is Ok && exists|id: Seq<char>|
                    ids::is_uuid(id) && final(self)@ == old(self)@.with_resource(
                        #[trigger] filled(n, id),
                    ),
                Err(e) => error::outcome(r) == Err::<(), CoreErrorView>(e) && final(self)@ == old(self)@,
            },
    {
        let id = new_id();
        let ghost id_view = id@;
        let r = self.upsert_with_id(resource, id);
        assert(normalized(resource@) matches Ok(n) ==> self@ == old(self)@.with_resource(
            filled(n, id_view),
        ));
        r
    }

    /// Removes a repository.
    pub fn delete(&mut self, resource_id: &str) -> (r: Result<(), CoreError>)
        requires
            old(self).wf(),
        ensures
            final(self).wf(),
            if old(self)@.resources.contains_key(resource_id@) {
                r is Ok && final(self)@ == old(self)@.without_resource(resource_id@)
            } else {
                error::outcome(r) == Err::<(), CoreErrorView>(CoreErrorView::NotFound)
                    && final(self)@ == old(self)@
            },
    {
        let ghost before = self@;
        let removed = self.resources.remove(&resource_id.to_owned());
        assert(self@ =~= before.without_resource(resource_id@));
        match removed {
            Some(_) => Ok(()),
            None => {
                assert(before.resources.remove(resource_id@) =~= before.resources);
                assert(self@ =~= before);
                Err(CoreError::NotFound)
            },
        }
    }

    /// A repository with the identifier `id`.
    pub fn get_by_id(&self, id: &str) -> (r: Result<Resource, CoreError>)
        requires
            self.wf(),
        ensures
            match r {
                Ok(found) => self@.is_resource(found@) && found@.id == id@,
                Err(e) => e@ == CoreErrorView::NotFound && forall|x: ResourceView| #[trigger]
                    self@.is_resource(x) ==> x.id != id@,
            },
    {
        proof {
            table::lemma_map_of(self.resources.rows());
        }
        let mut i: usize = 0;
        while i < self.resources.len()
            invariant
                self.wf(),
                i <= self.resources.rows().len(),
                forall|j: int| 0 <= j < i ==> (#[trigger] self.resources.rows()[j]).1.id != id@,
            decreases self.resources.rows().len() - i,
        {
            proof {
                table::lemma_map_of(self.resources.rows());
            }
            let resource = self.resources.value_at(i);
            assert(self@.resources.contains_key(self.resources.rows()[i as int].0));
            if same(resource.id.as_str(), id) {
                return Ok(resource.clone());
            }
            i += 1;
        }
        proof {
            assert forall|x: ResourceView| #[trigger] self@.is_resource(x) implies x.id != id@ by {
                let j = table::row_of(self.resources.rows(), x.resource_id);
                assert(self.resources.rows()[j].1 == x);
            }
        }
        Err(CoreError::NotFound)
    }

    /// The repository of a resource.
    pub fn get_by_resource_id(&self, resource_id: &str) -> (r: Result<Resource, CoreError>)
        requires
            self.wf(),
        ensures
            error::outcome(r) == if self@.resources.contains_key(resource_id@) {
                Ok::<ResourceView, CoreErrorView>(self@.resources[resource_id@])
            } else {
                Err(CoreErrorView::NotFound)
            },
    {
        match self.resources.get(&resource_id.to_owned()) {
            Some(resource) => Ok(resource.clone()),
            None => Err(CoreError::NotFound),
        }
    }

    /// A repository of that name.
    pub fn get_by_name(&self, name: &str) -> (r: Result<Resource, CoreError>)
        requires
            self.wf(),
        ensures
            match r {
                Ok(found) => self@.is_resource(found@) && found@.name == name@,
                Err(e) => e@ == CoreErrorView::NotFound && forall|x: ResourceView| #[trigger]
                    self@.is_resource(x) ==> x.name != name@,
            },
    {
        proof {
            table::lemma_map_of(self.resources.rows());
        }
        let mut i: usize = 0;
        while i < self.resources.len()
            invariant
                self.wf(),
                i <= self.resources.rows().len(),
                forall|j: int|
                    0 <= j < i ==> (#[trigger] self.resources.rows()[j]).1.name != name@,
            decreases self.resources.rows().len() - i,
        {
            proof {
                table::lemma_map_of(self.resources.rows());
            }
            let resource = self.resources.value_at(i);
            assert(self@.resources.contains_key(self.resources.rows()[i as int].0));
            if same(resource.name.as_str(), name) {
                return Ok(resource.clone());
            }
            i += 1;
        }
        proof {
            assert forall|x: ResourceView| #[trigger] self@.is_resource(x) implies x.name
                != name@ by {
                let j = table::row_of(self.resources.rows(), x.resource_id);
                assert(self.resources.rows()[j].1 == x);
            }
        }
        Err(CoreError::NotFound)
    }

    /// The repositories that are not deleted, by resource.
    pub fn list(&self) -> (r: Result<Vec<Resource>, CoreError>)
        requires
            self.wf(),
        ensures
            r matches Ok(out) && order::is_listing::<Resource>(
                order::views(out@),
                self@.live_resources(),
            ),
    {
        let found = self.resources.select(&LiveResource);
        let ghost list = order::views(found@);
        proof {
            let set = self@.live_resources();
            assert forall|r: ResourceView| list.to_set().contains(r) <==> set.contains(r) by {
                if set.contains(r) {
                    assert(self@.resources.contains_key(r.resource_id));
                }
            }
            assert(list.to_set() =~= set);
        }
        let out = sort(found);
        proof {
            order::lemma_sorted_copy::<Resource>(order::views(out@), list);
        }
        Ok(out)
    }
}

} // verus!
