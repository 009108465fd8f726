//! The identity providers that can be chosen from.

use vstd::prelude::*;

use crate::error::{invalid, CoreError, CoreErrorView};
use crate::model::{IdentityProviderDescriptor, IdentityProviderDescriptorView};
use crate::order;
use crate::order::{sort, Ranked};
use crate::table;
use crate::table::Table;
use crate::text::{cat2, debug_text};

verus! {

/// A provider and what it says of itself.
pub struct Slot<P> {
    pub descriptor: IdentityProviderDescriptor,
    pub provider: P,
}

impl<P> View for Slot<P> {
    type V = (IdentityProviderDescriptorView, P);

    open spec fn view(&self) -> (IdentityProviderDescriptorView, P) {
        (self.descriptor@, self.provider)
    }
}

/// Providers are listed by identifier.
impl Ranked for IdentityProviderDescriptor {
    open spec fn rank(v: IdentityProviderDescriptorView) -> Seq<Seq<char>> {
        seq![v.id]
    }

    fn may_precede(&self, other: &Self) -> (r: bool) {
        self.id.may_precede(&other.id)
    }
}

/// The identity providers, by identifier, and which of them is the default.
pub struct Registry<P> {
    default_id: String,
    by_id: Table<String, Slot<P>>,
}

impl<P> Registry<P> {
    /// The providers by identifier.
    pub closed spec fn providers(&self) -> Map<Seq<char>, (IdentityProviderDescriptorView, P)> {
        self.by_id@
    }

    /// The identifier of the default.
    pub closed spec fn chosen(&self) -> Seq<char> {
        self.default_id@
    }

    /// Each provider is found by the identifier that it says of itself.
    pub closed spec fn wf(&self) -> bool {
        &&& self.by_id.wf()
        &&& forall|k: Seq<char>| #[trigger]
            self.by_id@.contains_key(k) ==> self.by_id@[k].0.id == k
    }

    /// What the providers say of themselves.
    pub open spec fn descriptors(&self) -> Set<IdentityProviderDescriptorView> {
        Set::new(
            |d: IdentityProviderDescriptorView|
                self.providers().contains_key(d.id) && self.providers()[d.id].0 == d,
        )
    }

    /// A registry without providers.
    pub fn new(default_id: String) -> (r: Self)
        ensures
            r.wf(),
            r.chosen() == default_id@,
            r.providers() == Map::<Seq<char>, (IdentityProviderDescriptorView, P)>::empty(),
    {
        Registry { default_id, by_id: Table::new() }
    }

    /// Adds a provider, unless it has no identifier or one that is taken.
    pub fn register(&mut self, descriptor: IdentityProviderDescriptor, provider: P) -> (r: Result<
        (),
        CoreError,
    >)
        requires
            old(self).wf(),
        ensures
            final(self).wf(),
            final(self).chosen() == old(self).chosen(),
            match r {
                Ok(_) => {
                    &&& descriptor@.id.len() > 0
                    &&& !old(self).providers().contains_key(descriptor@.id)
                    &&& final(self).providers() == old(self).providers().insert(
                        descriptor@.id,
                        (descriptor@, provider),
                    )
                },
                Err(e) => {
                    &&& final(self).providers() == old(self).providers()
                    &&& if descriptor@.id.len() == 0 {
                        e@ == CoreErrorView::InvalidArgument(
                            "idp registry: provider id is required"@,
                        )
                    } else {
                        &&& old(self).providers().contains_key(descriptor@.id)
                        &&& e@ == CoreErrorView::InvalidArgument(
                            "idp registry: duplicate provider id "@ + crate::text::debug_quoted(
                                descriptor@.id,
                            ),
                        )
                    }
                },
            },
    {
        if descriptor.id.is_empty() {
            return Err(invalid("idp registry: provider id is required"));
        }
        if self.by_id.contains_key(&descriptor.id) {
            let shown = debug_text(descriptor.id.as_str());
            return Err(
                invalid(cat2("idp registry: duplicate provider id ", shown.as_str()).as_str()),
            );
        }
        self.by_id.insert(descriptor.id.clone(), Slot { descriptor, provider });
        Ok(())
    }

    /// The provider with an identifier.
    pub fn get(&self, id: &str) -> (r: Option<&P>)
        requires
            self.wf(),
        ensures
            match r {
                Some(p) => self.providers().contains_key(id@) && self.providers()[id@].1 == *p,
                None => !self.providers().contains_key(id@),
            },
    {
        match self.by_id.get(&id.to_owned()) {
            Some(slot) => Some(&slot.provider),
            None => None,
        }
    }

    /// The identifier of the default.
    pub fn default_id(&self) -> (r: &str)
        ensures
            r@ == self.chosen(),
    {
        self.default_id.as_str()
    }

    /// What the providers say of themselves, by identifier.
    pub fn list(&self) -> (r: Vec<IdentityProviderDescriptor>)
        requires
            self.wf(),
        ensures
            order::is_listing::<IdentityProviderDescriptor>(
                order::views(r@),
                self.descriptors(),
            ),
    {
        let ghost rows = self.by_id.rows();
        let mut found: Vec<IdentityProviderDescriptor> = Vec::new();
        let mut i: usize = 0;
        while i < self.by_id.len()
            invariant
                self.wf(),
                rows == self.by_id.rows(),
                i <= rows.len(),
                found@.len() == i,
                forall|j: int| 0 <= j < i ==> (#[trigger] found@[j])@ == rows[j].1.0,
            decreases rows.len() - i,
        {
            found.push(self.by_id.value_at(i).descriptor.clone());
            i += 1;
        }
        let ghost list = order::views(found@);
        proof {
            table::lemma_map_of(rows);
            let set = self.descriptors();
            assert forall|d: IdentityProviderDescriptorView|
                list.to_set().contains(d) <==> set.contains(d) by {
                if list.contains(d) {
                    let j = choose|j: int| 0 <= j < list.len() && list[j] == d;
                    assert(found@[j]@ == rows[j].1.0);
                    assert(self.by_id@.contains_key(rows[j].0));
                }
                if set.contains(d) {
                    assert(self.by_id@.contains_key(d.id));
                    let j = table::row_of(rows, d.id);
                    assert(rows[j].0 == d.id);
                    assert(list[j] == d);
                }
            }
            assert(list.to_set() =~= set);
            assert forall|a: int, b: int|
                0 <= a < list.len() && 0 <= b < list.len() && a != b implies list[a]
                != list[b] by {
                assert(found@[a]@ == rows[a].1.0 && found@[b]@ == rows[b].1.0);
                assert(self.by_id@.contains_key(rows[a].0));
                assert(self.by_id@.contains_key(rows[b].0));
            }
        }
        let out = sort(found);
        proof {
            order::lemma_sorted_copy::<IdentityProviderDescriptor>(order::views(out@), list);
        }
        out
    }
}

/// The providers are listed by identifier, each that is there and no other.
pub proof fn law_providers_are_listed_by_identifier<P>(
    registry: Registry<P>,
    out: Seq<IdentityProviderDescriptorView>,
    d: IdentityProviderDescriptorView,
    i: int,
    j: int,
)
    requires
        order::is_listing::<IdentityProviderDescriptor>(out, registry.descriptors()),
        0 <= i <= j < out.len(),
    ensures
        out.contains(d) <==> registry.providers().contains_key(d.id)
            && registry.providers()[d.id].0 == d,
        order::text_le(out[i].id, out[j].id),
{
    assert(out.contains(d) <==> out.to_set().contains(d));
    order::lemma_text_le_total(out[i].id, out[j].id);
    let a = <IdentityProviderDescriptor as Ranked>::rank(out[i]);
    let b = <IdentityProviderDescriptor as Ranked>::rank(out[j]);
    assert(order::keys_le(a, b));
    assert(a[0] == out[i].id && b[0] == out[j].id);
}

} // verus!
