//! The dynamic registry: deferred computations whose actions are only
//! known once some artifacts have been built.

use vstd::prelude::*;

use crate::artifact::{
    bind_outputs, dedup_seq, outputs_bindable, unique_outputs, ActionsRegistry, Artifact,
    OutputArtifact,
};
use crate::artifact_groups::{all_values_found, bind_recorded_keys, binds_after, lookup_fails_with};
use crate::deferred::{BaseDeferredKey, DeferredKey, DeferredRegistry};
use crate::error::AnalysisError;
use crate::storage::AnalysisValueFetcher;

verus! {

/// A handle on a dynamic computation, by its key: other dynamic
/// computations can depend on it, and it resolves to what it produced.
#[derive(Debug)]
pub struct DynamicValue {
    pub dynamic_output_key: DeferredKey,
}

impl DynamicValue {
    /// A copy of this handle.
    pub fn duplicate(&self) -> (r: DynamicValue)
        ensures
            r == *self,
    {
        DynamicValue { dynamic_output_key: self.dynamic_output_key.duplicate() }
    }
}

/// One registered dynamic computation: what must be built before its
/// callback runs, and the outputs the callback binds.
#[derive(Debug)]
pub struct DynamicRegistration {
    pub key: DeferredKey,
    pub dynamic: Vec<Artifact>,
    pub promises: Vec<DynamicValue>,
    pub outputs: Vec<OutputArtifact>,
}

/// The dynamic computations registered by one evaluation.
#[derive(Debug)]
pub struct DynamicRegistry {
    owner: BaseDeferredKey,
    keys: Vec<DeferredKey>,
    registrations: Vec<DynamicRegistration>,
}

/// A strategy for dynamic computations: how they are registered, and
/// checked once the evaluation is over.
pub trait DynamicRegistryDyn: Sized {
    /// The keys of the registered computations, in order.
    spec fn keys(&self) -> Seq<DeferredKey>;

    /// Each registered computation, in order: its key, the artifacts and
    /// promises it waits for, and its outputs, each once.
    spec fn registrations(&self) -> Seq<(DeferredKey, Seq<Artifact>, Seq<DynamicValue>, Seq<OutputArtifact>)>;

    /// A registry with no registrations, for the unit of work `owner`.
    fn new(owner: BaseDeferredKey) -> (r: Self)
        ensures
            r.keys() == Seq::<DeferredKey>::empty(),
            r.registrations().len() == 0,
    ;

    /// Registers a dynamic computation under a fresh key of `deferred` and
    /// binds its outputs, artifacts of `actions`, to that key. Fails,
    /// changing nothing, unless every output is an unbound artifact of
    /// `actions`. Outputs are a set: one named twice is bound once and
    /// recorded once.
    fn register(
        &mut self,
        dynamic: Vec<Artifact>,
        promises: Vec<DynamicValue>,
        outputs: Vec<OutputArtifact>,
        deferred: &mut DeferredRegistry,
        actions: &mut ActionsRegistry,
    ) -> (r: Result<DeferredKey, AnalysisError>)
        requires
            old(actions).wf(),
            old(deferred).issued() < u64::MAX,
        ensures
            final(actions).wf(),
            r is Ok <==> outputs_bindable(old(actions).bound(), outputs@),
            r matches Ok(key) ==> {
                &&& key == old(deferred).base().key_for(old(deferred).issued() as u64)
                &&& key.spec_id().id == old(deferred).issued()
                &&& final(deferred).bound_ids() == old(deferred).bound_ids().push(false)
                &&& final(actions).bound() == bind_outputs(old(actions).bound(), outputs@, key.spec_id())
                &&& final(self).keys() == old(self).keys().push(key)
                &&& final(self).registrations() == old(self).registrations().push(
                    (key, dynamic@, promises@, dedup_seq(outputs@)),
                )
            },
            r matches Err(e) ==> e == AnalysisError::AlreadyBound && *final(deferred)
                == *old(deferred) && final(actions).bound() == old(actions).bound()
                && final(self).keys() == old(self).keys() && final(self).registrations() == old(
                self,
            ).registrations(),
            final(deferred).base() == old(deferred).base(),
            final(actions).paths() == old(actions).paths(),
            final(actions).output_types() == old(actions).output_types(),
            final(actions).claimed() == old(actions).claimed(),
            final(actions).action_keys() == old(actions).action_keys(),
            final(actions).action_key() == old(actions).action_key(),
            final(actions).spec_execution_platform() == old(actions).spec_execution_platform(),
    ;

    /// Checks that a callback was recorded for every registration, then
    /// binds their keys in `deferred`.
    fn ensure_bound(self, deferred: &mut DeferredRegistry, fetcher: &AnalysisValueFetcher) -> (r:
        Result<(), AnalysisError>)
        requires
            forall|i: int|
                0 <= i < self.keys().len() ==> (#[trigger] self.keys()[i]).spec_id().id < old(
                    deferred,
                ).issued(),
        ensures
            r is Ok <==> all_values_found(*fetcher, self.keys()),
            r matches Err(e) ==> lookup_fails_with(*fetcher, self.keys(), e),
            binds_after(*old(deferred), *final(deferred), self.keys(), r is Ok),
    ;
}

impl DynamicRegistry {
    /// The unit of work the registrations belong to.
    pub closed spec fn owner(&self) -> BaseDeferredKey {
        self.owner
    }
}

impl DynamicRegistryDyn for DynamicRegistry {
    closed spec fn keys(&self) -> Seq<DeferredKey> {
        self.keys@
    }

    closed spec fn registrations(&self) -> Seq<(DeferredKey, Seq<Artifact>, Seq<DynamicValue>, Seq<OutputArtifact>)> {
        self.registrations@.map_values(
            |r: DynamicRegistration| (r.key, r.dynamic@, r.promises@, r.outputs@),
        )
    }

    fn new(owner: BaseDeferredKey) -> (r: DynamicRegistry) {
        let r = DynamicRegistry { owner, keys: Vec::new(), registrations: Vec::new() };
        assert(r.registrations().len() == 0);
        r
    }

    fn register(
        &mut self,
        dynamic: Vec<Artifact>,
        promises: Vec<DynamicValue>,
        outputs: Vec<OutputArtifact>,
        deferred: &mut DeferredRegistry,
        actions: &mut ActionsRegistry,
    ) -> (r: Result<DeferredKey, AnalysisError>)
    {
        actions.check_outputs_bindable(&outputs)?;
        let key = deferred.reserve();
        actions.bind_all(&outputs, key.id());
        self.keys.push(key.duplicate());
        let result = key.duplicate();
        let outputs = unique_outputs(&outputs);
        let ghost view = (key, dynamic@, promises@, outputs@);
        self.registrations.push(DynamicRegistration { key, dynamic, promises, outputs });
        assert(self.registrations() =~= old(self).registrations().push(view));
        Ok(result)
    }

    fn ensure_bound(self, deferred: &mut DeferredRegistry, fetcher: &AnalysisValueFetcher) -> (r:
        Result<(), AnalysisError>)
    {
        bind_recorded_keys(&self.keys, deferred, fetcher)
    }
}

} // verus!
