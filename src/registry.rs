//! The analysis registry: everything one rule evaluation registers, and
//! the finalization that hands it over once the evaluation is done.

use std::collections::HashMap;

use vstd::prelude::*;
use vstd::string::StrSliceExecFns;

use crate::artifact::{
    all_artifacts_bound, bind_outputs, dedup_seq, output_types_compatible, outputs_bindable,
    ActionsRegistry, Artifact, DeclaredArtifact, ExecutionPlatformResolution, OutputArtifact,
    OutputType, UnregisteredAction, check_output_type,
};
use crate::artifact_groups::{all_values_found, ArtifactGroupRegistry, TransitiveSet};
use crate::deferred::{BaseDeferredKey, BaseKey, DeferredKey, DeferredRegistry};
use crate::dynamic::{DynamicRegistryDyn, DynamicValue};
use crate::error::AnalysisError;
use crate::path::{is_forward_relative, join_paths, ForwardRelativePathBuf};
use crate::storage::{
    AnalysisValueFetcher, AnalysisValueStorage, FrozenModule, HeapObject, Module, Value,
};

verus! {

broadcast use vstd::std_specs::hash::group_hash_axioms;

/// Identity of an artifact promised by an anonymous target.
#[derive(Clone, Copy, Debug, PartialEq, Eq, Structural, Hash)]
pub struct PromiseArtifactId {
    pub id: u64,
}

/// Whether `f` names no file: it is empty or `.`.
pub open spec fn is_empty_file_name(f: Seq<char>) -> bool {
    f.len() == 0 || f == seq!['.']
}

/// The path an artifact declared with `prefix` and `filename` gets.
pub open spec fn full_path(prefix: Option<Seq<char>>, filename: Seq<char>) -> Seq<char> {
    match prefix {
        Some(p) => join_paths(p, filename),
        None => filename,
    }
}

/// Whether every key of `keys` has a value recorded in the storage
/// published into `env`.
pub open spec fn recorded_in(env: Module, keys: Seq<DeferredKey>) -> bool {
    forall|i: int| 0 <= i < keys.len() ==> value_recorded(env, (#[trigger] keys[i]).spec_id().id)
}

/// Whether the storage published into `env` holds a value for `id`.
pub open spec fn value_recorded(env: Module, id: u64) -> bool {
    match env.storage() {
        Some(s) => s.values().contains_key(id),
        None => false,
    }
}

/// A declared artifact as the rule author holds it: the artifact and the
/// artifacts that come along with it wherever it is used.
#[derive(Debug)]
pub struct StarlarkDeclaredArtifact {
    pub artifact: DeclaredArtifact,
    pub associated_artifacts: Vec<Artifact>,
}

/// What a rule author may give where an output is asked for.
#[derive(Debug)]
pub enum OutputArtifactArg {
    /// A file name: a new artifact is declared under it.
    Str(String),
    /// An artifact already in the role of an output.
    OutputArtifact(OutputArtifact),
    /// A declared artifact.
    DeclaredArtifact(StarlarkDeclaredArtifact),
    /// An artifact that cannot be an output: it is bound already.
    WrongArtifact(Artifact),
}

/// `s` followed by each element of `extra` that it does not yet hold.
pub open spec fn extend_unique(s: Seq<Artifact>, extra: Seq<Artifact>) -> Seq<Artifact>
    decreases extra.len(),
{
    if extra.len() == 0 {
        s
    } else {
        let front = extend_unique(s, extra.drop_last());
        if front.contains(extra.last()) {
            front
        } else {
            front.push(extra.last())
        }
    }
}

/// An artifact that `get_or_declare_output` found or declared, with what
/// comes along with it.
#[derive(Debug)]
pub struct ArtifactDeclaration {
    pub artifact: StarlarkDeclaredArtifact,
}

impl ArtifactDeclaration {
    /// The declared artifact, with `extra_associated_artifacts` added to
    /// those that come along with it.
    pub fn into_declared_artifact(self, extra_associated_artifacts: Vec<Artifact>) -> (r:
        StarlarkDeclaredArtifact)
        ensures
            r.artifact == self.artifact.artifact,
            r.associated_artifacts@ == extend_unique(
                self.artifact.associated_artifacts@,
                extra_associated_artifacts@,
            ),
    {
        let StarlarkDeclaredArtifact { artifact, associated_artifacts } = self.artifact;
        let mut assoc = associated_artifacts;
        let n = extra_associated_artifacts.len();
        let mut i: usize = 0;
        while i < n
            invariant
                n == extra_associated_artifacts@.len(),
                i <= n,
                assoc@ == extend_unique(
                    associated_artifacts@,
                    extra_associated_artifacts@.subrange(0, i as int),
                ),
            decreases n - i,
        {
            let a = extra_associated_artifacts[i];
            let mut found = false;
            let m = assoc.len();
            let mut j: usize = 0;
            while j < m
                invariant
                    m == assoc@.len(),
                    j <= m,
                    found == exists|k: int| 0 <= k < j && assoc@[k] == a,
                decreases m - j,
            {
                if assoc[j] == a {
                    found = true;
                }
                j = j + 1;
            }
            proof {
                let sub = extra_associated_artifacts@.subrange(0, i as int + 1);
                assert(sub.drop_last() =~= extra_associated_artifacts@.subrange(0, i as int));
                assert(sub.last() == a);
                if found {
                    let k = choose|k: int| 0 <= k < m && assoc@[k] == a;
                    assert(assoc@.contains(a));
                } else {
                    assert(!assoc@.contains(a));
                }
            }
            if !found {
                assoc.push(a);
            }
            i = i + 1;
        }
        assert(extra_associated_artifacts@.subrange(0, n as int) =~= extra_associated_artifacts@);
        StarlarkDeclaredArtifact { artifact, associated_artifacts: assoc }
    }
}

/// Everything one rule evaluation registers: its deferred keys, actions,
/// transitive sets, dynamic computations and the values recorded for them.
#[derive(Debug)]
pub struct AnalysisRegistry<D: DynamicRegistryDyn> {
    deferred: DeferredRegistry,
    actions: ActionsRegistry,
    artifact_groups: ArtifactGroupRegistry,
    dynamic: D,
    analysis_value_storage: AnalysisValueStorage,
    short_path_assertions: HashMap<u64, ForwardRelativePathBuf>,
}

/// Whether every key of `keys` has an id that `deferred` has issued.
pub open spec fn keys_issued(keys: Seq<DeferredKey>, deferred: DeferredRegistry) -> bool {
    forall|i: int| 0 <= i < keys.len() ==> (#[trigger] keys[i]).spec_id().id < deferred.issued()
}

/// Whether every key of `keys` has a value recorded in `values`.
pub open spec fn keys_recorded(keys: Seq<DeferredKey>, values: Map<u64, Value>) -> bool {
    forall|i: int| 0 <= i < keys.len() ==> values.contains_key((#[trigger] keys[i]).spec_id().id)
}

/// Whether `after` still issues the keys `before` issued: the same owner,
/// and at least as many keys.
pub open spec fn keys_kept(before: DeferredRegistry, after: DeferredRegistry) -> bool {
    after.base() == before.base() && before.issued() <= after.issued()
}

impl<D: DynamicRegistryDyn> AnalysisRegistry<D> {
    /// The allocator of this evaluation's deferred keys.
    pub closed spec fn deferred(&self) -> DeferredRegistry {
        self.deferred
    }

    /// The actions and declared artifacts.
    pub closed spec fn actions(&self) -> ActionsRegistry {
        self.actions
    }

    /// The transitive sets.
    pub closed spec fn artifact_groups(&self) -> ArtifactGroupRegistry {
        self.artifact_groups
    }

    /// The dynamic computations.
    pub closed spec fn dynamic(&self) -> D {
        self.dynamic
    }

    /// The values recorded so far.
    pub closed spec fn storage(&self) -> AnalysisValueStorage {
        self.analysis_value_storage
    }

    /// The short path asserted for each promised artifact, by its id.
    pub closed spec fn short_paths(&self) -> Map<u64, Seq<char>> {
        self.short_path_assertions@.map_values(|p: ForwardRelativePathBuf| p@)
    }

    /// The registry's invariant: every key it recorded was issued by its
    /// allocator, and every transitive set and dynamic computation has its
    /// value recorded.
    pub open spec fn wf(&self) -> bool {
        &&& self.actions().wf()
        &&& keys_issued(self.actions().action_keys(), self.deferred())
        &&& keys_issued(self.artifact_groups().keys(), self.deferred())
        &&& keys_issued(self.dynamic().keys(), self.deferred())
        &&& keys_recorded(self.artifact_groups().keys(), self.storage().values())
        &&& keys_recorded(self.dynamic().keys(), self.storage().values())
    }

    /// Whether `self` and `other` hold the same artifacts and claims.
    pub open spec fn same_artifacts(&self, other: &AnalysisRegistry<D>) -> bool {
        &&& self.actions().paths() == other.actions().paths()
        &&& self.actions().output_types() == other.actions().output_types()
        &&& self.actions().bound() == other.actions().bound()
        &&& self.actions().claimed() == other.actions().claimed()
    }

    /// Whether `self` and `other` hold the same registrations and values.
    pub open spec fn same_registrations(&self, other: &AnalysisRegistry<D>) -> bool {
        &&& self.deferred() == other.deferred()
        &&& self.actions().action_keys() == other.actions().action_keys()
        &&& self.artifact_groups().keys() == other.artifact_groups().keys()
        &&& self.dynamic().keys() == other.dynamic().keys()
        &&& self.dynamic().registrations() == other.dynamic().registrations()
        &&& self.actions().action_key() == other.actions().action_key()
        &&& self.actions().spec_execution_platform() == other.actions().spec_execution_platform()
        &&& self.storage().values() == other.storage().values()
        &&& self.storage().error_handlers() == other.storage().error_handlers()
    }

    /// The error `declare_output(prefix, filename, ..)` fails with, if it
    /// fails.
    pub open spec fn declare_output_error(
        &self,
        prefix: Option<Seq<char>>,
        filename: Seq<char>,
    ) -> Option<AnalysisError> {
        if is_empty_file_name(filename) {
            Some(AnalysisError::DeclaredEmptyFileName)
        } else if !is_forward_relative(filename) {
            Some(AnalysisError::InvalidPath)
        } else if prefix matches Some(p) && !is_forward_relative(p) {
            Some(AnalysisError::InvalidPath)
        } else if self.actions().claimed().contains(full_path(prefix, filename)) {
            Some(AnalysisError::PathConflict)
        } else {
            None
        }
    }

    /// A registry for the evaluation of `owner`.
    pub fn new_from_owner(owner: BaseDeferredKey, execution_platform: ExecutionPlatformResolution) -> (r:
        AnalysisRegistry<D>)
        ensures
            r.wf(),
            r.deferred().base() == BaseKey::Base(owner),
            r.deferred().issued() == 0,
            r.actions().bound().len() == 0,
            r.actions().claimed().len() == 0,
            r.actions().action_keys().len() == 0,
            r.actions().action_key() is None,
            r.actions().spec_execution_platform() == execution_platform,
            r.artifact_groups().keys().len() == 0,
            r.dynamic().keys().len() == 0,
            r.dynamic().registrations().len() == 0,
            r.storage().values() == Map::<u64, Value>::empty(),
            r.storage().error_handlers() == Map::<u64, Value>::empty(),
            r.short_paths() == Map::<u64, Seq<char>>::empty(),
    {
        Self::new_from_owner_and_deferred(
            owner,
            execution_platform,
            DeferredRegistry::new(BaseKey::Base(owner)),
        )
    }

    /// A registry for the evaluation of `owner` whose deferred keys come
    /// from `deferred`.
    pub fn new_from_owner_and_deferred(
        owner: BaseDeferredKey,
        execution_platform: ExecutionPlatformResolution,
        deferred: DeferredRegistry,
    ) -> (r: AnalysisRegistry<D>)
        ensures
            r.wf(),
            r.deferred() == deferred,
            r.actions().bound().len() == 0,
            r.actions().claimed().len() == 0,
            r.actions().action_keys().len() == 0,
            r.artifact_groups().keys().len() == 0,
            r.dynamic().keys().len() == 0,
            r.dynamic().registrations().len() == 0,
            r.actions().action_key() is None,
            r.actions().spec_execution_platform() == execution_platform,
            r.storage().values() == Map::<u64, Value>::empty(),
            r.storage().error_handlers() == Map::<u64, Value>::empty(),
            r.short_paths() == Map::<u64, Seq<char>>::empty(),
    {
        let r = AnalysisRegistry {
            deferred,
            actions: ActionsRegistry::new(execution_platform),
            artifact_groups: ArtifactGroupRegistry::new(),
            dynamic: D::new(owner),
            analysis_value_storage: AnalysisValueStorage::new(),
            short_path_assertions: HashMap::new(),
        };
        assert(r.short_paths() =~= Map::<u64, Seq<char>>::empty());
        r
    }

    /// Sets the key that names the actions of this evaluation.
    pub fn set_action_key(&mut self, action_key: String)
        requires
            old(self).wf(),
        ensures
            final(self).wf(),
            final(self).actions().action_key() == Some(action_key),
            final(self).same_artifacts(old(self)),
            final(self).deferred() == old(self).deferred(),
            final(self).actions().action_keys() == old(self).actions().action_keys(),
            final(self).artifact_groups().keys() == old(self).artifact_groups().keys(),
            final(self).dynamic() == old(self).dynamic(),
            final(self).storage() == old(self).storage(),
            final(self).short_paths() == old(self).short_paths(),
            final(self).actions().spec_execution_platform() == old(
                self,
            ).actions().spec_execution_platform(),
    {
        self.actions.set_action_key(action_key);
    }

    /// Reserves `path` for an output without declaring an artifact there.
    /// Fails where the path was claimed, or declared, before.
    pub fn claim_output_path(&mut self, path: &ForwardRelativePathBuf) -> (r: Result<
        (),
        AnalysisError,
    >)
        requires
            old(self).wf(),
        ensures
            final(self).wf(),
            r is Ok <==> !old(self).actions().claimed().contains(path@),
            r is Ok ==> final(self).actions().claimed() == old(self).actions().claimed().push(path@),
            r matches Err(e) ==> e == AnalysisError::PathConflict && final(self).actions().claimed()
                == old(self).actions().claimed(),
            final(self).actions().paths() == old(self).actions().paths(),
            final(self).actions().output_types() == old(self).actions().output_types(),
            final(self).actions().bound() == old(self).actions().bound(),
            final(self).same_registrations(old(self)),
    {
        self.actions.claim_output_path(path)
    }

    /// Declares an unbound output of a dynamic computation at `path`.
    pub fn declare_dynamic_output(&mut self, path: ForwardRelativePathBuf, output_type: OutputType) -> (r:
        DeclaredArtifact)
        requires
            old(self).wf(),
            old(self).actions().artifact_count() < u64::MAX,
        ensures
            final(self).wf(),
            r.index == old(self).actions().artifact_count(),
            final(self).actions().paths() == old(self).actions().paths().push(path@),
            final(self).actions().output_types() == old(self).actions().output_types().push(
                output_type,
            ),
            final(self).actions().bound() == old(self).actions().bound().push(None),
            final(self).actions().claimed() == old(self).actions().claimed(),
            final(self).same_registrations(old(self)),
    {
        self.actions.declare_dynamic_output(path, output_type)
    }

    /// Declares an unbound artifact named `filename`, under `prefix` where
    /// one is given. Fails with `DeclaredEmptyFileName` for the names `""`
    /// and `.`, with `InvalidPath` where a name is not forward-relative,
    /// and with `PathConflict` where the path was claimed before.
    pub fn declare_output(
        &mut self,
        prefix: Option<&str>,
        filename: &str,
        output_type: OutputType,
    ) -> (r: Result<DeclaredArtifact, AnalysisError>)
        requires
            old(self).wf(),
            old(self).actions().artifact_count() < u64::MAX,
        ensures
            final(self).wf(),
            ({
                let pre = match prefix {
                    Some(p) => Some(p@),
                    None => None,
                };
                let full = full_path(pre, filename@);
                let err = old(self).declare_output_error(pre, filename@);
                &&& r is Ok <==> err is None
                &&& r matches Err(e) ==> err == Some(e) && final(self).same_artifacts(old(self))
                &&& r matches Ok(a) ==> {
                    &&& a.index == old(self).actions().artifact_count()
                    &&& final(self).actions().claimed() == old(self).actions().claimed().push(full)
                    &&& final(self).actions().paths() == old(self).actions().paths().push(full)
                    &&& final(self).actions().output_types() == old(
                        self,
                    ).actions().output_types().push(output_type)
                    &&& final(self).actions().bound() == old(self).actions().bound().push(None)
                }
            }),
            final(self).same_registrations(old(self)),
    {
        let n = filename.unicode_len();
        if n == 0 {
            return Err(AnalysisError::DeclaredEmptyFileName);
        }
        if n == 1 && filename.get_char(0) == '.' {
            assert(filename@ =~= seq!['.']);
            return Err(AnalysisError::DeclaredEmptyFileName);
        }
        proof {
            if filename@ == seq!['.'] {
                assert(filename@[0] == '.');
            }
        }
        let path = ForwardRelativePathBuf::new(filename)?;
        let prefix = match prefix {
            None => None,
            Some(x) => Some(ForwardRelativePathBuf::new(x)?),
        };
        self.actions.declare_artifact(prefix, path, output_type)
    }

    /// The artifact `value` gives for an output of type `output_type`,
    /// declaring a new one for a file name. Fails where `value` is a bound
    /// artifact or none of this registry's, or was declared with another
    /// output type.
    pub fn get_or_declare_output(&mut self, value: OutputArtifactArg, output_type: OutputType) -> (r:
        Result<(ArtifactDeclaration, OutputArtifact), AnalysisError>)
        requires
            old(self).wf(),
            old(self).actions().artifact_count() < u64::MAX,
        ensures
            final(self).wf(),
            final(self).same_registrations(old(self)),
            r matches Ok((d, o)) ==> o.artifact == d.artifact.artifact && o.artifact.index
                < final(self).actions().artifact_count() && output_types_compatible(
                final(self).actions().output_types()[o.artifact.index as int],
                output_type,
            ),
            match value {
                OutputArtifactArg::Str(s) => {
                    let err = old(self).declare_output_error(None, s@);
                    &&& r is Ok <==> err is None
                    &&& r matches Err(e) ==> err == Some(e) && final(self).same_artifacts(old(self))
                    &&& r matches Ok((d, o)) ==> {
                        &&& o.artifact.index == old(self).actions().artifact_count()
                        &&& d.artifact.associated_artifacts@.len() == 0
                        &&& final(self).actions().claimed() == old(self).actions().claimed().push(s@)
                        &&& final(self).actions().paths() == old(self).actions().paths().push(s@)
                        &&& final(self).actions().output_types() == old(
                            self,
                        ).actions().output_types().push(output_type)
                        &&& final(self).actions().bound() == old(self).actions().bound().push(None)
                    }
                },
                OutputArtifactArg::WrongArtifact(_) => {
                    &&& r == Err::<(ArtifactDeclaration, OutputArtifact), AnalysisError>(
                        AnalysisError::AlreadyBound,
                    )
                    &&& final(self).same_artifacts(old(self))
                },
                OutputArtifactArg::OutputArtifact(a) => {
                    &&& final(self).same_artifacts(old(self))
                    &&& r is Ok <==> a.artifact.index < old(self).actions().artifact_count()
                        && output_types_compatible(
                        old(self).actions().output_types()[a.artifact.index as int],
                        output_type,
                    )
                    &&& r matches Ok((d, o)) ==> o == a && d.artifact.associated_artifacts@.len() == 0
                    &&& r matches Err(e) ==> if a.artifact.index < old(self).actions().artifact_count() {
                        e == AnalysisError::WrongOutputType
                    } else {
                        e == AnalysisError::AlreadyBound
                    }
                },
                OutputArtifactArg::DeclaredArtifact(a) => {
                    &&& final(self).same_artifacts(old(self))
                    &&& r is Ok <==> a.artifact.index < old(self).actions().artifact_count()
                        && output_types_compatible(
                        old(self).actions().output_types()[a.artifact.index as int],
                        output_type,
                    )
                    &&& r matches Ok((d, o)) ==> d.artifact == a
                    &&& r matches Err(e) ==> if a.artifact.index < old(self).actions().artifact_count() {
                        e == AnalysisError::WrongOutputType
                    } else {
                        e == AnalysisError::AlreadyBound
                    }
                },
            },
    {
        let declared = match value {
            OutputArtifactArg::Str(path) => {
                let artifact = self.declare_output(None, path.as_str(), output_type)?;
                StarlarkDeclaredArtifact { artifact, associated_artifacts: Vec::new() }
            },
            OutputArtifactArg::OutputArtifact(output) => StarlarkDeclaredArtifact {
                artifact: output.artifact,
                associated_artifacts: Vec::new(),
            },
            OutputArtifactArg::DeclaredArtifact(artifact) => artifact,
            OutputArtifactArg::WrongArtifact(_) => {
                return Err(AnalysisError::AlreadyBound);
            },
        };
        if !self.actions.is_declared(declared.artifact) {
            return Err(AnalysisError::AlreadyBound);
        }
        let output = declared.artifact.as_output();
        check_output_type(self.actions.output_type_of(declared.artifact), output_type)?;
        Ok((ArtifactDeclaration { artifact: declared }, output))
    }

    /// Registers `action`, which reads `inputs` and binds `outputs`, under
    /// a fresh deferred key, and records `associated_value` and
    /// `error_handler` for it where given. Fails, changing nothing, unless
    /// every output is an unbound artifact of this registry; an output named
    /// twice counts once.
    pub fn register_action(
        &mut self,
        inputs: Vec<Artifact>,
        outputs: Vec<OutputArtifact>,
        action: UnregisteredAction,
        associated_value: Option<Value>,
        error_handler: Option<Value>,
    ) -> (r: Result<(), AnalysisError>)
        requires
            old(self).wf(),
            old(self).deferred().issued() < u64::MAX,
        ensures
            final(self).wf(),
            r is Ok <==> outputs_bindable(old(self).actions().bound(), outputs@),
            r matches Err(e) ==> e == AnalysisError::AlreadyBound && final(self).same_artifacts(
                old(self),
            ) && final(self).same_registrations(old(self)),
            r is Ok ==> {
                let id = old(self).deferred().issued() as u64;
                let key = old(self).deferred().base().key_for(id);
                &&& final(self).deferred().base() == old(self).deferred().base()
                &&& final(self).deferred().bound_ids() == old(self).deferred().bound_ids().push(false)
                &&& final(self).actions().bound() == bind_outputs(
                    old(self).actions().bound(),
                    outputs@,
                    key.spec_id(),
                )
                &&& final(self).actions().action_keys() == old(self).actions().action_keys().push(key)
                &&& final(self).storage().values() == match associated_value {
                    Some(v) => old(self).storage().values().insert(id, v),
                    None => old(self).storage().values(),
                }
                &&& final(self).storage().error_handlers() == match error_handler {
                    Some(h) => old(self).storage().error_handlers().insert(id, h),
                    None => old(self).storage().error_handlers(),
                }
                &&& final(self).artifact_groups().keys() == old(self).artifact_groups().keys()
                &&& final(self).dynamic().keys() == old(self).dynamic().keys()
                &&& final(self).dynamic().registrations() == old(self).dynamic().registrations()
            },
            final(self).actions().action_key() == old(self).actions().action_key(),
            final(self).actions().spec_execution_platform() == old(
                self,
            ).actions().spec_execution_platform(),
            final(self).actions().paths() == old(self).actions().paths(),
            final(self).actions().output_types() == old(self).actions().output_types(),
            final(self).actions().claimed() == old(self).actions().claimed(),
    {
        let id = self.actions.register(&mut self.deferred, inputs, outputs, action)?;
        if let Some(value) = associated_value {
            self.analysis_value_storage.set_value(id, value);
        }
        if let Some(handler) = error_handler {
            self.analysis_value_storage.set_error_handler(id, handler);
        }
        Ok(())
    }

    /// Creates a transitive set under a fresh deferred key, allocates it on
    /// the heap of `env` and records it for that key.
    pub fn create_transitive_set(
        &mut self,
        definition: Value,
        value: Option<Value>,
        children: Option<Value>,
        env: &mut Module,
    ) -> (r: Value)
        requires
            old(self).wf(),
            old(self).deferred().issued() < u64::MAX,
            old(env).heap().objects().len() < u64::MAX,
        ensures
            final(self).wf(),
            ({
                let id = old(self).deferred().issued() as u64;
                let key = old(self).deferred().base().key_for(id);
                &&& r.handle == old(env).heap().objects().len()
                &&& final(env).heap().objects() == old(env).heap().objects().push(
                    HeapObject::TransitiveSet(
                        TransitiveSet { key, definition, node: value, children },
                    ),
                )
                &&& final(self).storage().values() == old(self).storage().values().insert(id, r)
                &&& final(self).artifact_groups().keys() == old(self).artifact_groups().keys().push(key)
            }),
            final(env).storage() == old(env).storage(),
            final(self).same_artifacts(old(self)),
            final(self).deferred().base() == old(self).deferred().base(),
            final(self).deferred().bound_ids() == old(self).deferred().bound_ids().push(false),
            final(self).actions().action_keys() == old(self).actions().action_keys(),
            final(self).dynamic().keys() == old(self).dynamic().keys(),
            final(self).dynamic().registrations() == old(self).dynamic().registrations(),
            final(self).actions().action_key() == old(self).actions().action_key(),
            final(self).actions().spec_execution_platform() == old(
                self,
            ).actions().spec_execution_platform(),
            final(self).storage().error_handlers() == old(self).storage().error_handlers(),
    {
        let set = self.artifact_groups.create_transitive_set(
            definition,
            value,
            children,
            &mut self.deferred,
        );
        let id = set.key.id();
        let v = env.alloc_object(HeapObject::TransitiveSet(set));
        self.analysis_value_storage.set_value(id, v);
        v
    }

    /// Registers a dynamic computation that runs once `dynamic` and
    /// `promises` are available and binds `outputs`, and records its
    /// callback `attributes_plugins_lambda` for the new key. Fails,
    /// changing nothing, unless every output is an unbound artifact of this
    /// registry; an output named twice counts once.
    pub fn register_dynamic_output(
        &mut self,
        dynamic: Vec<Artifact>,
        promises: Vec<DynamicValue>,
        outputs: Vec<OutputArtifact>,
        attributes_plugins_lambda: Value,
    ) -> (r: Result<DeferredKey, AnalysisError>)
        requires
            old(self).wf(),
            old(self).deferred().issued() < u64::MAX,
        ensures
            final(self).wf(),
            r is Ok <==> outputs_bindable(old(self).actions().bound(), outputs@),
            r matches Err(e) ==> e == AnalysisError::AlreadyBound && final(self).same_artifacts(
                old(self),
            ) && final(self).same_registrations(old(self)),
            r matches Ok(key) ==> {
                &&& key == old(self).deferred().base().key_for(old(self).deferred().issued() as u64)
                &&& !old(self).deferred().has_issued(key)
                &&& final(self).deferred().has_issued(key)
                &&& final(self).deferred().base() == old(self).deferred().base()
                &&& final(self).deferred().bound_ids() == old(self).deferred().bound_ids().push(false)
                &&& final(self).actions().bound() == bind_outputs(
                    old(self).actions().bound(),
                    outputs@,
                    key.spec_id(),
                )
                &&& final(self).dynamic().keys() == old(self).dynamic().keys().push(key)
                &&& final(self).dynamic().registrations() == old(self).dynamic().registrations().push(
                    (key, dynamic@, promises@, dedup_seq(outputs@)),
                )
                &&& final(self).storage().values() == old(self).storage().values().insert(
                    key.spec_id().id,
                    attributes_plugins_lambda,
                )
                &&& final(self).storage().error_handlers() == old(self).storage().error_handlers()
                &&& final(self).actions().action_keys() == old(self).actions().action_keys()
                &&& final(self).artifact_groups().keys() == old(self).artifact_groups().keys()
            },
            final(self).actions().action_key() == old(self).actions().action_key(),
            final(self).actions().spec_execution_platform() == old(
                self,
            ).actions().spec_execution_platform(),
            final(self).actions().paths() == old(self).actions().paths(),
            final(self).actions().output_types() == old(self).actions().output_types(),
            final(self).actions().claimed() == old(self).actions().claimed(),
    {
        let ghost d0 = self.deferred;
        let key = self.dynamic.register(
            dynamic,
            promises,
            outputs,
            &mut self.deferred,
            &mut self.actions,
        )?;
        proof {
            assert(self.deferred.has_issued(key)) by {
                assert(key == self.deferred.base().key_for(d0.issued() as u64));
            }
            assert forall|i: u64| i < d0.issued() implies key != #[trigger] d0.base().key_for(i) by {
                crate::deferred::lemma_key_for_injective(d0.base(), d0.issued() as u64, i);
            }
        }
        self.analysis_value_storage.set_value(key.id(), attributes_plugins_lambda);
        Ok(key)
    }

    /// Records that the artifact promised as `promise_artifact_id` must
    /// have the short path `short_path`; a later assertion for the same
    /// artifact replaces it.
    pub fn record_short_path_assertion(
        &mut self,
        short_path: ForwardRelativePathBuf,
        promise_artifact_id: PromiseArtifactId,
    )
        requires
            old(self).wf(),
        ensures
            final(self).wf(),
            final(self).short_paths() == old(self).short_paths().insert(
                promise_artifact_id.id,
                short_path@,
            ),
            final(self).same_artifacts(old(self)),
            final(self).same_registrations(old(self)),
    {
        let ghost p = short_path@;
        self.short_path_assertions.insert(promise_artifact_id.id, short_path);
        assert(self.short_paths() =~= old(self).short_paths().insert(promise_artifact_id.id, p));
    }

    /// The short path asserted for the artifact promised as `id`, if any.
    pub fn short_path_assertion(&self, id: PromiseArtifactId) -> (r: Option<&ForwardRelativePathBuf>)
        ensures
            r matches Some(p) ==> self.short_paths().contains_key(id.id) && self.short_paths()[id.id]
                == p@,
            r is None ==> !self.short_paths().contains_key(id.id),
    {
        self.short_path_assertions.get(&id.id)
    }

    /// The number of deferred keys issued so far.
    pub fn issued_key_count(&self) -> (r: usize)
        ensures
            r == self.deferred().issued(),
    {
        self.deferred.issued_count()
    }

    /// Whether `artifact` is bound, or `None` where it is not an artifact
    /// of this registry.
    pub fn is_artifact_bound(&self, artifact: DeclaredArtifact) -> (r: Option<bool>)
        ensures
            artifact.index < self.actions().artifact_count() ==> r == Some(
                self.actions().bound()[artifact.index as int] is Some,
            ),
            artifact.index >= self.actions().artifact_count() ==> r is None,
    {
        if self.actions.is_declared(artifact) {
            Some(self.actions.is_bound(artifact))
        } else {
            None
        }
    }

    /// The path `artifact` was declared at, or `None` where it is not an
    /// artifact of this registry.
    pub fn artifact_path(&self, artifact: DeclaredArtifact) -> (r: Option<&ForwardRelativePathBuf>)
        requires
            self.wf(),
        ensures
            artifact.index < self.actions().artifact_count() ==> (r matches Some(p) && p@
                == self.actions().paths()[artifact.index as int]),
            artifact.index >= self.actions().artifact_count() ==> r is None,
    {
        if self.actions.is_declared(artifact) {
            Some(self.actions.path_of(artifact))
        } else {
            None
        }
    }

    /// The execution platform of this evaluation.
    pub fn execution_platform(&self) -> (r: &ExecutionPlatformResolution)
        ensures
            *r == self.actions().spec_execution_platform(),
    {
        self.actions.execution_platform()
    }

    /// Ends the evaluation: publishes the recorded values into `env`, to be
    /// frozen with it, and returns what checks every registration against
    /// the frozen module. Fails where `env` already holds a published
    /// storage, an internal error.
    pub fn finalize(self, env: &mut Module) -> (r: Result<RegistryCommitter<D>, AnalysisError>)
        requires
            self.wf(),
        ensures
            r is Err <==> old(env).storage() is Some,
            r matches Err(e) ==> e == AnalysisError::StorageAlreadySet && *final(env) == *old(env),
            r matches Ok(c) ==> {
                &&& c.wf()
                &&& final(env).storage() == Some(self.storage())
                &&& final(env).heap() == old(env).heap()
                &&& c.deferred() == self.deferred()
                &&& c.actions() == self.actions()
                &&& c.artifact_groups() == self.artifact_groups()
                &&& c.dynamic() == self.dynamic()
            },
    {
        let AnalysisRegistry {
            deferred,
            actions,
            artifact_groups,
            dynamic,
            analysis_value_storage,
            short_path_assertions: _,
        } = self;
        analysis_value_storage.write_to_module(env)?;
        Ok(RegistryCommitter { deferred, actions, artifact_groups, dynamic })
    }
}

/// What is left of a registry after `finalize`: it checks, and binds,
/// every registration against the frozen module.
#[derive(Debug)]
pub struct RegistryCommitter<D: DynamicRegistryDyn> {
    deferred: DeferredRegistry,
    actions: ActionsRegistry,
    artifact_groups: ArtifactGroupRegistry,
    dynamic: D,
}

impl<D: DynamicRegistryDyn> RegistryCommitter<D> {
    /// The allocator of the evaluation's deferred keys.
    pub closed spec fn deferred(&self) -> DeferredRegistry {
        self.deferred
    }

    /// The actions and declared artifacts.
    pub closed spec fn actions(&self) -> ActionsRegistry {
        self.actions
    }

    /// The transitive sets.
    pub closed spec fn artifact_groups(&self) -> ArtifactGroupRegistry {
        self.artifact_groups
    }

    /// The dynamic computations.
    pub closed spec fn dynamic(&self) -> D {
        self.dynamic
    }

    /// Every key recorded was issued by the allocator.
    pub open spec fn wf(&self) -> bool {
        &&& keys_issued(self.actions().action_keys(), self.deferred())
        &&& keys_issued(self.artifact_groups().keys(), self.deferred())
        &&& keys_issued(self.dynamic().keys(), self.deferred())
    }

    /// Whether the id `i` is that of a registered action, transitive set or
    /// dynamic computation.
    pub open spec fn registers_id(&self, i: int) -> bool {
        ||| exists|j: int|
            0 <= j < self.actions().action_keys().len()
                && #[trigger] self.actions().action_keys()[j].spec_id().id == i
        ||| exists|j: int|
            0 <= j < self.artifact_groups().keys().len()
                && #[trigger] self.artifact_groups().keys()[j].spec_id().id == i
        ||| exists|j: int|
            0 <= j < self.dynamic().keys().len() && #[trigger] self.dynamic().keys()[j].spec_id().id
                == i
    }

    /// Freezes `env`, the module `finalize` published into, and checks
    /// the registries in order: actions, transitive sets, dynamic
    /// computations. Succeeds exactly when every declared artifact is bound
    /// and a value is recorded for every transitive set and dynamic
    /// computation; then every registered key is bound in the returned
    /// allocator.
    pub fn commit(self, env: Module) -> (r: Result<(FrozenModule, DeferredRegistry), AnalysisError>)
        requires
            self.wf(),
        ensures
            r is Ok <==> all_artifacts_bound(self.actions().bound()) && recorded_in(
                env,
                self.artifact_groups().keys(),
            ) && recorded_in(env, self.dynamic().keys()),
            r matches Err(e) ==> if !all_artifacts_bound(self.actions().bound()) {
                e == AnalysisError::UnboundArtifact
            } else {
                e == AnalysisError::MissingValue || e == AnalysisError::StorageNotSet
            },
            r matches Ok((m, d)) ==> {
                &&& m.heap().objects() == env.heap().objects()
                &&& (m.storage() is Some <==> env.storage() is Some)
                &&& env.storage() matches Some(s) ==> m.storage() matches Some(f) && f.values()
                    == s.values() && f.error_handlers() == s.error_handlers()
                &&& d.base() == self.deferred().base()
                &&& d.issued() == self.deferred().issued()
                &&& forall|i: int|
                    0 <= i < d.issued() ==> #[trigger] d.bound_ids()[i] == (
                    self.deferred().bound_ids()[i] || self.registers_id(i))
            },
    {
        let RegistryCommitter { mut deferred, actions, artifact_groups, dynamic } = self;
        let ghost env0 = env;
        let frozen_env = env.freeze();
        let fetcher = AnalysisValueFetcher::new(Some(frozen_env));
        proof {
            assert forall|keys: Seq<DeferredKey>| all_values_found(fetcher, keys) == recorded_in(
                env0,
                keys,
            ) by {
                if all_values_found(fetcher, keys) {
                    assert forall|i: int| 0 <= i < keys.len() implies value_recorded(
                        env0,
                        (#[trigger] keys[i]).spec_id().id,
                    ) by {
                        assert(fetcher.spec_get(keys[i].spec_id()) matches Ok(Some(_)));
                    }
                }
                if recorded_in(env0, keys) {
                    assert forall|i: int| 0 <= i < keys.len() implies fetcher.spec_get(
                        (#[trigger] keys[i]).spec_id(),
                    ) matches Ok(Some(_)) by {
                        assert(value_recorded(env0, keys[i].spec_id().id));
                    }
                }
            }
        }
        let ghost d0 = deferred;
        let ghost ak = actions.action_keys();
        let ghost gk = artifact_groups.keys();
        let ghost dk = dynamic.keys();
        actions.ensure_bound(&mut deferred)?;
        let ghost d1 = deferred;
        artifact_groups.ensure_bound(&mut deferred, &fetcher)?;
        let ghost d2 = deferred;
        dynamic.ensure_bound(&mut deferred, &fetcher)?;
        proof {
            assert forall|i: int| 0 <= i < deferred.issued() implies #[trigger] deferred.bound_ids()[i]
                == (d0.bound_ids()[i] || self.registers_id(i)) by {
                assert(d2.bound_ids()[i] == (d1.bound_ids()[i] || exists|j: int|
                    0 <= j < gk.len() && gk[j].spec_id().id == i));
                assert(d1.bound_ids()[i] == (d0.bound_ids()[i] || exists|j: int|
                    0 <= j < ak.len() && ak[j].spec_id().id == i));
            }
        }
        let frozen_env = fetcher.into_module();
        match frozen_env {
            Some(m) => Ok((m, deferred)),
            None => Err(AnalysisError::StorageNotSet),
        }
    }
}

} // verus!
