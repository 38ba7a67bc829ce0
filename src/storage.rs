//! Values produced during an evaluation: the heap that holds them, the
//! storage that records them by deferred id, and its one-shot freeze into
//! a module that is read after the evaluation.

use starlark_map::small_map::SmallMap;
use vstd::prelude::*;

use crate::artifact_groups::TransitiveSet;
use crate::deferred::DeferredId;
use crate::dynamic_output::DynamicLambdaParams;
use crate::error::AnalysisError;
use crate::value_map::{small_map_entries, small_map_get, small_map_insert, small_map_new};

verus! {

/// A handle to a value of the evaluation's heap.
#[derive(Clone, Copy, Debug, PartialEq, Eq, Structural, Hash)]
pub struct Value {
    pub handle: u64,
}

/// What a heap slot holds. Values the language runtime made itself are
/// opaque here.
#[derive(Debug)]
pub enum HeapObject {
    Opaque,
    DynamicLambda(DynamicLambdaParams),
    TransitiveSet(TransitiveSet),
}

/// The evaluation's heap: the value with handle `i` is slot `i`.
#[derive(Debug)]
pub struct Heap {
    objects: Vec<HeapObject>,
}

impl Heap {
    /// The slots allocated so far.
    pub closed spec fn objects(&self) -> Seq<HeapObject> {
        self.objects@
    }

    /// An empty heap.
    pub fn new() -> (r: Heap)
        ensures
            r.objects() == Seq::<HeapObject>::empty(),
    {
        Heap { objects: Vec::new() }
    }

    /// Allocates `object` in a fresh slot and returns its handle.
    pub fn alloc_object(&mut self, object: HeapObject) -> (r: Value)
        requires
            old(self).objects().len() < u64::MAX,
        ensures
            r.handle == old(self).objects().len(),
            final(self).objects() == old(self).objects().push(object),
    {
        let handle = self.objects.len() as u64;
        self.objects.push(object);
        Value { handle }
    }

    /// The number of slots allocated so far.
    pub fn object_count(&self) -> (r: usize)
        ensures
            r == self.objects().len(),
    {
        self.objects.len()
    }

    /// The object behind `value`, if the handle is one of this heap's.
    pub fn get(&self, value: Value) -> (r: Option<&HeapObject>)
        ensures
            value.handle < self.objects().len() ==> r == Some(&self.objects()[value.handle as int]),
            value.handle >= self.objects().len() ==> r is None,
    {
        if value.handle < self.objects.len() as u64 {
            Some(&self.objects[value.handle as usize])
        } else {
            None
        }
    }
}

/// The values, and the error handlers, recorded under deferred ids during
/// one evaluation. Writing only: it is read after it has been frozen.
#[derive(Debug)]
pub struct AnalysisValueStorage {
    values: SmallMap<u64, u64>,
    error_handlers: SmallMap<u64, u64>,
}

/// The frozen form of `AnalysisValueStorage`: lookups only.
#[derive(Debug)]
pub struct FrozenAnalysisValueStorage {
    values: SmallMap<u64, u64>,
    error_handlers: SmallMap<u64, u64>,
}

/// The value handles of `m`, as values.
pub open spec fn as_values(m: Map<u64, u64>) -> Map<u64, Value> {
    m.map_values(|h: u64| Value { handle: h })
}

impl AnalysisValueStorage {
    /// The value recorded for each id.
    pub closed spec fn values(&self) -> Map<u64, Value> {
        as_values(small_map_entries(self.values))
    }

    /// The error handler recorded for each id.
    pub closed spec fn error_handlers(&self) -> Map<u64, Value> {
        as_values(small_map_entries(self.error_handlers))
    }

    /// A storage with nothing recorded.
    pub fn new() -> (r: AnalysisValueStorage)
        ensures
            r.values() == Map::<u64, Value>::empty(),
            r.error_handlers() == Map::<u64, Value>::empty(),
    {
        let r = AnalysisValueStorage { values: small_map_new(), error_handlers: small_map_new() };
        assert(r.values() =~= Map::<u64, Value>::empty());
        assert(r.error_handlers() =~= Map::<u64, Value>::empty());
        r
    }

    /// Records `value` for `id`; a later call for the same id replaces it.
    pub fn set_value(&mut self, id: DeferredId, value: Value)
        ensures
            final(self).values() == old(self).values().insert(id.id, value),
            final(self).error_handlers() == old(self).error_handlers(),
    {
        small_map_insert(&mut self.values, id.id, value.handle);
        assert(self.values() =~= old(self).values().insert(id.id, value));
    }

    /// Records `handler` as the error handler of `id`; a later call for the
    /// same id replaces it.
    pub fn set_error_handler(&mut self, id: DeferredId, handler: Value)
        ensures
            final(self).values() == old(self).values(),
            final(self).error_handlers() == old(self).error_handlers().insert(id.id, handler),
    {
        small_map_insert(&mut self.error_handlers, id.id, handler.handle);
        assert(self.error_handlers() =~= old(self).error_handlers().insert(id.id, handler));
    }

    /// The immutable form of this storage, with the same entries.
    pub fn freeze(self) -> (r: FrozenAnalysisValueStorage)
        ensures
            r.values() == self.values(),
            r.error_handlers() == self.error_handlers(),
    {
        FrozenAnalysisValueStorage { values: self.values, error_handlers: self.error_handlers }
    }

    /// Publishes this storage into `module`, to be frozen with it. A module
    /// takes one storage: where it already holds one, this is an internal
    /// error and the module is left as it was.
    pub fn write_to_module(self, module: &mut Module) -> (r: Result<(), AnalysisError>)
        ensures
            r is Err <==> old(module).storage() is Some,
            r matches Err(e) ==> e == AnalysisError::StorageAlreadySet && *final(module)
                == *old(module),
            r is Ok ==> final(module).storage() == Some(self) && final(module).heap()
                == old(module).heap(),
    {
        if module.analysis_value_storage.is_some() {
            return Err(AnalysisError::StorageAlreadySet);
        }
        module.analysis_value_storage = Some(self);
        Ok(())
    }
}

impl FrozenAnalysisValueStorage {
    /// The value recorded for each id.
    pub closed spec fn values(&self) -> Map<u64, Value> {
        as_values(small_map_entries(self.values))
    }

    /// The error handler recorded for each id.
    pub closed spec fn error_handlers(&self) -> Map<u64, Value> {
        as_values(small_map_entries(self.error_handlers))
    }

    /// The value recorded for `id`, if any.
    pub fn get(&self, id: DeferredId) -> (r: Option<Value>)
        ensures
            r == self.values().get(id.id),
    {
        match small_map_get(&self.values, id.id) {
            Some(h) => Some(Value { handle: h }),
            None => None,
        }
    }

    /// The error handler recorded for `id`, if any.
    pub fn get_error_handler(&self, id: DeferredId) -> (r: Option<Value>)
        ensures
            r == self.error_handlers().get(id.id),
    {
        match small_map_get(&self.error_handlers, id.id) {
            Some(h) => Some(Value { handle: h }),
            None => None,
        }
    }
}

/// The module an evaluation runs in: its heap and the slot that the value
/// storage is published into.
#[derive(Debug)]
pub struct Module {
    heap: Heap,
    analysis_value_storage: Option<AnalysisValueStorage>,
}

/// A module after its evaluation: nothing in it changes any more.
#[derive(Debug)]
pub struct FrozenModule {
    heap: Heap,
    analysis_value_storage: Option<FrozenAnalysisValueStorage>,
}

impl Module {
    /// The value storage published into this module, if any.
    pub closed spec fn storage(&self) -> Option<AnalysisValueStorage> {
        self.analysis_value_storage
    }

    /// The heap of this module.
    pub closed spec fn heap(&self) -> Heap {
        self.heap
    }

    /// A module with an empty heap and no published storage.
    pub fn new() -> (r: Module)
        ensures
            r.heap().objects() == Seq::<HeapObject>::empty(),
            r.storage() is None,
    {
        Module { heap: Heap::new(), analysis_value_storage: None }
    }

    /// Allocates `object` on this module's heap.
    pub fn alloc_object(&mut self, object: HeapObject) -> (r: Value)
        requires
            old(self).heap().objects().len() < u64::MAX,
        ensures
            r.handle == old(self).heap().objects().len(),
            final(self).heap().objects() == old(self).heap().objects().push(object),
            final(self).storage() == old(self).storage(),
    {
        self.heap.alloc_object(object)
    }

    /// The heap of this module.
    pub fn module_heap(&self) -> (r: &Heap)
        ensures
            *r == self.heap(),
    {
        &self.heap
    }

    /// Whether a value storage has been published into this module.
    pub fn has_storage(&self) -> (r: bool)
        ensures
            r == self.storage() is Some,
    {
        self.analysis_value_storage.is_some()
    }

    /// Freezes the module, and the storage published into it with it.
    pub fn freeze(self) -> (r: FrozenModule)
        ensures
            r.heap().objects() == self.heap().objects(),
            self.storage() is None ==> r.storage() is None,
            self.storage() matches Some(s) ==> r.storage() matches Some(f) && f.values()
                == s.values() && f.error_handlers() == s.error_handlers(),
    {
        let Module { heap, analysis_value_storage } = self;
        let analysis_value_storage = match analysis_value_storage {
            Some(s) => Some(s.freeze()),
            None => None,
        };
        FrozenModule { heap, analysis_value_storage }
    }
}

impl FrozenModule {
    /// The frozen value storage of this module, if one was published.
    pub closed spec fn storage(&self) -> Option<FrozenAnalysisValueStorage> {
        self.analysis_value_storage
    }

    /// The heap of this module.
    pub closed spec fn heap(&self) -> Heap {
        self.heap
    }

    /// The heap of this module.
    pub fn frozen_heap(&self) -> (r: &Heap)
        ensures
            *r == self.heap(),
    {
        &self.heap
    }

    /// The frozen value storage of this module, if one was published.
    pub fn frozen_storage(&self) -> (r: Option<&FrozenAnalysisValueStorage>)
        ensures
            self.storage() is None ==> r is None,
            self.storage() matches Some(s) ==> r == Some(&s),
    {
        match &self.analysis_value_storage {
            Some(s) => Some(s),
            None => None,
        }
    }
}

/// Fetches the values recorded during an evaluation from the module it
/// ran in, once that module is frozen.
#[derive(Debug)]
pub struct AnalysisValueFetcher {
    frozen_module: Option<FrozenModule>,
}

impl AnalysisValueFetcher {
    /// The frozen module values are fetched from, if any.
    pub closed spec fn module(&self) -> Option<FrozenModule> {
        self.frozen_module
    }

    /// What `get(id)` returns: nothing without a module, an internal error
    /// where the module holds no storage, else the value recorded for `id`.
    pub open spec fn spec_get(&self, id: DeferredId) -> Result<Option<Value>, AnalysisError> {
        match self.module() {
            None => Ok(None),
            Some(m) => match m.storage() {
                None => Err(AnalysisError::StorageNotSet),
                Some(s) => Ok(s.values().get(id.id)),
            },
        }
    }

    /// What `get_error_handler(id)` returns, as `spec_get` does for values.
    pub open spec fn spec_get_error_handler(&self, id: DeferredId) -> Result<
        Option<Value>,
        AnalysisError,
    > {
        match self.module() {
            None => Ok(None),
            Some(m) => match m.storage() {
                None => Err(AnalysisError::StorageNotSet),
                Some(s) => Ok(s.error_handlers().get(id.id)),
            },
        }
    }

    /// A fetcher over `module`, or one that finds nothing.
    pub fn new(module: Option<FrozenModule>) -> (r: AnalysisValueFetcher)
        ensures
            r.module() == module,
    {
        AnalysisValueFetcher { frozen_module: module }
    }

    /// Gives the frozen module back.
    pub fn into_module(self) -> (r: Option<FrozenModule>)
        ensures
            r == self.module(),
    {
        self.frozen_module
    }

    /// The frozen storage, where there is a module.
    fn extra_value(&self) -> (r: Result<Option<&FrozenAnalysisValueStorage>, AnalysisError>)
        ensures
            self.module() is None ==> r == Ok::<Option<&FrozenAnalysisValueStorage>, AnalysisError>(None),
            self.module() matches Some(m) ==> match m.storage() {
                None => r == Err::<Option<&FrozenAnalysisValueStorage>, AnalysisError>(AnalysisError::StorageNotSet),
                Some(s) => r == Ok::<Option<&FrozenAnalysisValueStorage>, AnalysisError>(Some(&s)),
            },
    {
        match &self.frozen_module {
            None => Ok(None),
            Some(module) => match module.frozen_storage() {
                None => Err(AnalysisError::StorageNotSet),
                Some(s) => Ok(Some(s)),
            },
        }
    }

    /// The value recorded for `id`, if any.
    pub fn get(&self, id: DeferredId) -> (r: Result<Option<Value>, AnalysisError>)
        ensures
            r == self.spec_get(id),
    {
        match self.extra_value()? {
            None => Ok(None),
            Some(storage) => Ok(storage.get(id)),
        }
    }

    /// The error handler recorded for `id`, if any.
    pub fn get_error_handler(&self, id: DeferredId) -> (r: Result<Option<Value>, AnalysisError>)
        ensures
            r == self.spec_get_error_handler(id),
    {
        match self.extra_value()? {
            None => Ok(None),
            Some(storage) => Ok(storage.get_error_handler(id)),
        }
    }
}

} // verus!
