//! Transitive sets and the registry that tracks their deferred keys.

use vstd::prelude::*;

use crate::deferred::{DeferredKey, DeferredRegistry};
use crate::error::AnalysisError;
use crate::storage::{AnalysisValueFetcher, Value};

verus! {

/// A transitive set: its definition, its own value and its children, and
/// the deferred key it is recorded under.
#[derive(Debug)]
pub struct TransitiveSet {
    pub key: DeferredKey,
    pub definition: Value,
    pub node: Option<Value>,
    pub children: Option<Value>,
}

/// Whether `fetcher` finds a value for every key of `keys`.
pub open spec fn all_values_found(fetcher: AnalysisValueFetcher, keys: Seq<DeferredKey>) -> bool {
    forall|i: int|
        0 <= i < keys.len() ==> fetcher.spec_get((#[trigger] keys[i]).spec_id()) matches Ok(
            Some(_),
        )
}

/// Whether `e` is what the lookup of some key of `keys` in `fetcher` gives
/// where it finds no value: its error, or `MissingValue` where it finds
/// nothing.
pub open spec fn lookup_fails_with(
    fetcher: AnalysisValueFetcher,
    keys: Seq<DeferredKey>,
    e: AnalysisError,
) -> bool {
    exists|i: int|
        0 <= i < keys.len() && match fetcher.spec_get((#[trigger] keys[i]).spec_id()) {
            Err(f) => e == f,
            Ok(None) => e == AnalysisError::MissingValue,
            Ok(Some(_)) => false,
        }
}

/// Whether `deferred` binds an id: where `before` did, or where the id is
/// that of a key of `keys` and `bound_keys` holds.
pub open spec fn binds_after(
    before: DeferredRegistry,
    after: DeferredRegistry,
    keys: Seq<DeferredKey>,
    bound_keys: bool,
) -> bool {
    &&& after.base() == before.base()
    &&& after.issued() == before.issued()
    &&& forall|i: int|
        0 <= i < before.issued() ==> #[trigger] after.bound_ids()[i] == (before.bound_ids()[i]
            || (bound_keys && exists|j: int| 0 <= j < keys.len() && keys[j].spec_id().id == i))
}

/// Checks that a value was recorded for every key of `keys`, then binds
/// all of them in `deferred`.
pub(crate) fn bind_recorded_keys(
    keys: &Vec<DeferredKey>,
    deferred: &mut DeferredRegistry,
    fetcher: &AnalysisValueFetcher,
) -> (r: Result<(), AnalysisError>)
    requires
        forall|i: int| 0 <= i < keys@.len() ==> (#[trigger] keys@[i]).spec_id().id < old(deferred).issued(),
    ensures
        r is Ok <==> all_values_found(*fetcher, keys@),
        r matches Err(e) ==> lookup_fails_with(*fetcher, keys@, e),
        binds_after(*old(deferred), *final(deferred), keys@, r is Ok),
{
    let n = keys.len();
    let mut i: usize = 0;
    while i < n
        invariant
            n == keys@.len(),
            i <= n,
            *deferred == *old(deferred),
            forall|j: int|
                0 <= j < i ==> fetcher.spec_get((#[trigger] keys@[j]).spec_id()) matches Ok(Some(_)),
        decreases n - i,
    {
        match fetcher.get(keys[i].id()) {
            Err(e) => {
                assert(match fetcher.spec_get(keys@[i as int].spec_id()) {
                    Err(f) => e == f,
                    Ok(None) => e == AnalysisError::MissingValue,
                    Ok(Some(_)) => false,
                });
                return Err(e);
            },
            Ok(None) => {
                assert(match fetcher.spec_get(keys@[i as int].spec_id()) {
                    Err(f) => AnalysisError::MissingValue == f,
                    Ok(None) => true,
                    Ok(Some(_)) => false,
                });
                return Err(AnalysisError::MissingValue);
            },
            Ok(Some(_)) => {},
        }
        i = i + 1;
    }
    let mut j: usize = 0;
    while j < n
        invariant
            n == keys@.len(),
            j <= n,
            forall|i: int| 0 <= i < keys@.len() ==> (#[trigger] keys@[i]).spec_id().id < old(deferred).issued(),
            deferred.base() == old(deferred).base(),
            deferred.issued() == old(deferred).issued(),
            forall|i: int|
                0 <= i < old(deferred).issued() ==> #[trigger] deferred.bound_ids()[i] == (old(
                    deferred,
                ).bound_ids()[i] || exists|l: int| 0 <= l < j && keys@[l].spec_id().id == i),
        decreases n - j,
    {
        let id = keys[j].id();
        deferred.bind(id);
        proof {
            assert forall|i: int| 0 <= i < old(deferred).issued() implies #[trigger] deferred.bound_ids()[i]
                == (old(deferred).bound_ids()[i] || exists|l: int|
                0 <= l < j + 1 && keys@[l].spec_id().id == i) by {
                if i == id.id {
                    assert(keys@[j as int].spec_id().id == i);
                }
            }
        }
        j = j + 1;
    }
    Ok(())
}

/// The transitive sets of one evaluation, by their deferred keys.
#[derive(Debug)]
pub struct ArtifactGroupRegistry {
    keys: Vec<DeferredKey>,
}

impl ArtifactGroupRegistry {
    /// The keys of the transitive sets created so far, in order.
    pub closed spec fn keys(&self) -> Seq<DeferredKey> {
        self.keys@
    }

    /// A registry with no transitive sets.
    pub fn new() -> (r: ArtifactGroupRegistry)
        ensures
            r.keys() == Seq::<DeferredKey>::empty(),
    {
        ArtifactGroupRegistry { keys: Vec::new() }
    }

    /// Creates a transitive set under a fresh key of `deferred`.
    pub fn create_transitive_set(
        &mut self,
        definition: Value,
        node: Option<Value>,
        children: Option<Value>,
        deferred: &mut DeferredRegistry,
    ) -> (r: TransitiveSet)
        requires
            old(deferred).issued() < u64::MAX,
        ensures
            r.key == old(deferred).base().key_for(old(deferred).issued() as u64),
            r.key.spec_id().id == old(deferred).issued(),
            r.definition == definition,
            r.node == node,
            r.children == children,
            final(self).keys() == old(self).keys().push(r.key),
            final(deferred).base() == old(deferred).base(),
            final(deferred).bound_ids() == old(deferred).bound_ids().push(false),
    {
        let key = deferred.reserve();
        self.keys.push(key.duplicate());
        TransitiveSet { key, definition, node, children }
    }

    /// Checks that a value was recorded for every transitive set, then
    /// binds their keys in `deferred`.
    pub fn ensure_bound(self, deferred: &mut DeferredRegistry, fetcher: &AnalysisValueFetcher) -> (r:
        Result<(), AnalysisError>)
        requires
            forall|i: int|
                0 <= i < self.keys().len() ==> (#[trigger] self.keys()[i]).spec_id().id < old(
                    deferred,
                ).issued(),
        ensures
            r is Ok <==> all_values_found(*fetcher, self.keys()),
            r matches Err(e) ==> lookup_fails_with(*fetcher, self.keys(), e),
            binds_after(*old(deferred), *final(deferred), self.keys(), r is Ok),
    {
        bind_recorded_keys(&self.keys, deferred, fetcher)
    }
}

} // verus!
