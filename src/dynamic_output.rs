//! The dynamic-output registration protocol: the checked entry point a
//! rule calls to register a dynamic computation.

use vstd::prelude::*;

use crate::artifact::{bind_outputs, dedup_seq, outputs_bindable, Artifact, DeclaredArtifact, OutputArtifact};
use crate::dynamic::{DynamicRegistryDyn, DynamicValue};
use crate::error::AnalysisError;
use crate::registry::AnalysisRegistry;
use crate::storage::{HeapObject, Module, Value};

verus! {

/// A dynamic-output callback together with the context of the evaluation
/// that registered it, so that it later runs with the same attributes and
/// plugins.
#[derive(Debug)]
pub struct DynamicLambdaParams {
    pub attributes: Option<Value>,
    pub plugins: Option<Value>,
    pub lambda: Value,
}

/// An output as given to `dynamic_output`: an output artifact, or a
/// declared artifact that should have been passed as one.
#[derive(Clone, Copy, Debug, PartialEq, Eq, Structural)]
pub enum StarlarkOutputOrDeclaredArtifact {
    Output(OutputArtifact),
    Declared(DeclaredArtifact),
}

impl StarlarkOutputOrDeclaredArtifact {
    /// The artifact in its output role.
    pub open spec fn spec_output_artifact(&self) -> OutputArtifact {
        match self {
            StarlarkOutputOrDeclaredArtifact::Output(o) => *o,
            StarlarkOutputOrDeclaredArtifact::Declared(d) => OutputArtifact { artifact: *d },
        }
    }

    /// The artifact in its output role.
    pub fn output_artifact(&self) -> (r: OutputArtifact)
        ensures
            r == self.spec_output_artifact(),
    {
        match self {
            StarlarkOutputOrDeclaredArtifact::Output(o) => *o,
            StarlarkOutputOrDeclaredArtifact::Declared(d) => d.as_output(),
        }
    }
}

/// A diagnostic that is reported without failing the evaluation.
#[derive(Clone, Copy, Debug, PartialEq, Eq, Structural)]
pub enum SoftError {
    /// A declared artifact was passed to `dynamic_output` as an output
    /// where an output artifact was expected.
    DynamicOutputOutputDeclared(DeclaredArtifact),
}

impl SoftError {
    /// The name of the class this soft error is reported under.
    pub fn category(&self) -> (r: &'static str)
        ensures
            r@ == "dynamic_output_output_declared"@,
    {
        match self {
            SoftError::DynamicOutputOutputDeclared(_) => "dynamic_output_output_declared",
        }
    }
}

/// The outputs of `outs` in their output role.
pub open spec fn output_artifacts_of(outs: Seq<StarlarkOutputOrDeclaredArtifact>) -> Seq<
    OutputArtifact,
> {
    outs.map_values(|o: StarlarkOutputOrDeclaredArtifact| o.spec_output_artifact())
}

/// One soft error for each declared artifact among `outs`, in order.
pub open spec fn declared_output_errors(outs: Seq<StarlarkOutputOrDeclaredArtifact>) -> Seq<
    SoftError,
>
    decreases outs.len(),
{
    if outs.len() == 0 {
        Seq::empty()
    } else {
        let front = declared_output_errors(outs.drop_last());
        match outs.last() {
            StarlarkOutputOrDeclaredArtifact::Declared(d) => front.push(
                SoftError::DynamicOutputOutputDeclared(d),
            ),
            StarlarkOutputOrDeclaredArtifact::Output(_) => front,
        }
    }
}

/// The actions of a rule evaluation as the rule sees them: the registry,
/// the context a dynamic callback is to run with, and the soft errors
/// reported so far.
#[derive(Debug)]
pub struct AnalysisActions<D: DynamicRegistryDyn> {
    state: AnalysisRegistry<D>,
    attributes: Option<Value>,
    plugins: Option<Value>,
    soft_errors: Vec<SoftError>,
}

impl<D: DynamicRegistryDyn> AnalysisActions<D> {
    /// The registry of the evaluation.
    pub closed spec fn state(&self) -> AnalysisRegistry<D> {
        self.state
    }

    /// The attributes dynamic callbacks run with.
    pub closed spec fn attributes(&self) -> Option<Value> {
        self.attributes
    }

    /// The plugins dynamic callbacks run with.
    pub closed spec fn plugins(&self) -> Option<Value> {
        self.plugins
    }

    /// The soft errors reported so far, in order.
    pub closed spec fn spec_soft_errors(&self) -> Seq<SoftError> {
        self.soft_errors@
    }

    /// The actions over `state`, whose dynamic callbacks run with
    /// `attributes` and `plugins`.
    pub fn new(state: AnalysisRegistry<D>, attributes: Option<Value>, plugins: Option<Value>) -> (r:
        AnalysisActions<D>)
        ensures
            r.state() == state,
            r.attributes() == attributes,
            r.plugins() == plugins,
            r.spec_soft_errors() == Seq::<SoftError>::empty(),
    {
        AnalysisActions { state, attributes, plugins, soft_errors: Vec::new() }
    }

    /// The registry of the evaluation.
    pub fn registry(&self) -> (r: &AnalysisRegistry<D>)
        ensures
            *r == self.state(),
    {
        &self.state
    }

    /// Gives the registry back, to be finalized.
    pub fn into_registry(self) -> (r: AnalysisRegistry<D>)
        ensures
            r == self.state(),
    {
        self.state
    }

    /// The soft errors reported so far, in order.
    pub fn soft_errors(&self) -> (r: &Vec<SoftError>)
        ensures
            r@ == self.spec_soft_errors(),
    {
        &self.soft_errors
    }

    /// Registers a dynamic computation: once `dynamic` is built and
    /// `promises` are resolved, callback `f` runs, with this evaluation's
    /// attributes and plugins, and binds `outputs`. `inputs` is ignored.
    ///
    /// Fails with `EmptyOutput`, changing nothing, where `outputs` is
    /// empty. Each declared artifact among `outputs` is reported as a soft
    /// error and still used. The callback bundle is allocated on the heap
    /// of `env`; the registration then fails with `AlreadyBound`, leaving
    /// the registry as it was, unless every output is an unbound artifact
    /// of the registry. Outputs are a set: one given twice is registered
    /// once. On success the handle wraps a key that
    /// no earlier registration got, and the bundle is recorded for it.
    pub fn dynamic_output(
        &mut self,
        env: &mut Module,
        dynamic: Vec<Artifact>,
        promises: Vec<DynamicValue>,
        inputs: Option<Vec<Artifact>>,
        outputs: Vec<StarlarkOutputOrDeclaredArtifact>,
        f: Value,
    ) -> (r: Result<DynamicValue, AnalysisError>)
        requires
            old(self).state().wf(),
            old(self).state().deferred().issued() < u64::MAX,
            old(env).heap().objects().len() < u64::MAX,
        ensures
            final(self).state().wf(),
            final(self).attributes() == old(self).attributes(),
            final(self).plugins() == old(self).plugins(),
            outputs@.len() == 0 ==> {
                &&& r == Err::<DynamicValue, AnalysisError>(AnalysisError::EmptyOutput)
                &&& final(self).state() == old(self).state()
                &&& final(self).spec_soft_errors() == old(self).spec_soft_errors()
                &&& *final(env) == *old(env)
            },
            outputs@.len() > 0 ==> {
                let outs = output_artifacts_of(outputs@);
                let bound = old(self).state().actions().bound();
                let bundle = DynamicLambdaParams {
                    attributes: old(self).attributes(),
                    plugins: old(self).plugins(),
                    lambda: f,
                };
                &&& final(self).spec_soft_errors() == old(self).spec_soft_errors()
                    + declared_output_errors(outputs@)
                &&& final(env).heap().objects() == old(env).heap().objects().push(
                    HeapObject::DynamicLambda(bundle),
                )
                &&& final(env).storage() == old(env).storage()
                &&& r is Ok <==> outputs_bindable(bound, outs)
                &&& (exists|i: int|
                    0 <= i < outs.len() && (#[trigger] outs[i]).artifact.index < bound.len()
                        && bound[outs[i].artifact.index as int] is Some) ==> r
                    == Err::<DynamicValue, AnalysisError>(AnalysisError::AlreadyBound)
                &&& r matches Err(e) ==> e == AnalysisError::AlreadyBound && final(self).state().same_artifacts(
                    &old(self).state(),
                ) && final(self).state().same_registrations(&old(self).state())
                &&& r matches Ok(v) ==> {
                    let key = v.dynamic_output_key;
                    let d0 = old(self).state().deferred();
                    &&& key == d0.base().key_for(d0.issued() as u64)
                    &&& !d0.has_issued(key)
                    &&& final(self).state().deferred().has_issued(key)
                    &&& final(self).state().deferred().base() == d0.base()
                    &&& final(self).state().actions().bound() == bind_outputs(bound, outs, key.spec_id())
                    &&& final(self).state().dynamic().keys() == old(self).state().dynamic().keys().push(key)
                    &&& final(self).state().dynamic().registrations() == old(
                        self,
                    ).state().dynamic().registrations().push(
                        (key, dynamic@, promises@, dedup_seq(outs)),
                    )
                    &&& final(self).state().deferred().bound_ids() == d0.bound_ids().push(false)
                    &&& final(self).state().storage().error_handlers() == old(
                        self,
                    ).state().storage().error_handlers()
                    &&& final(self).state().actions().action_keys() == old(
                        self,
                    ).state().actions().action_keys()
                    &&& final(self).state().artifact_groups().keys() == old(
                        self,
                    ).state().artifact_groups().keys()
                    &&& final(self).state().actions().claimed() == old(self).state().actions().claimed()
                    &&& final(self).state().actions().paths() == old(self).state().actions().paths()
                    &&& final(self).state().storage().values() == old(self).state().storage().values().insert(
                        key.spec_id().id,
                        Value { handle: old(env).heap().objects().len() as u64 },
                    )
                }
            },
    {
        let _ignored = inputs;
        let n = outputs.len();
        if n == 0 {
            return Err(AnalysisError::EmptyOutput);
        }
        let mut converted: Vec<OutputArtifact> = Vec::new();
        let mut i: usize = 0;
        while i < n
            invariant
                n == outputs@.len(),
                i <= n,
                converted@ == output_artifacts_of(outputs@.subrange(0, i as int)),
                self.soft_errors@ == old(self).spec_soft_errors() + declared_output_errors(
                    outputs@.subrange(0, i as int),
                ),
                self.state == old(self).state(),
                self.attributes == old(self).attributes(),
                self.plugins == old(self).plugins(),
            decreases n - i,
        {
            let o = outputs[i];
            proof {
                let sub = outputs@.subrange(0, i as int + 1);
                assert(sub.drop_last() =~= outputs@.subrange(0, i as int));
                assert(sub.last() == o);
            }
            match o {
                StarlarkOutputOrDeclaredArtifact::Output(_) => {},
                StarlarkOutputOrDeclaredArtifact::Declared(d) => {
                    self.soft_errors.push(SoftError::DynamicOutputOutputDeclared(d));
                },
            }
            converted.push(o.output_artifact());
            proof {
                assert(converted@ =~= output_artifacts_of(outputs@.subrange(0, i as int + 1)));
                assert(self.soft_errors@ =~= old(self).spec_soft_errors() + declared_output_errors(
                    outputs@.subrange(0, i as int + 1),
                ));
            }
            i = i + 1;
        }
        assert(outputs@.subrange(0, n as int) =~= outputs@);
        let lambda = env.alloc_object(
            HeapObject::DynamicLambda(
                DynamicLambdaParams { attributes: self.attributes, plugins: self.plugins, lambda: f },
            ),
        );
        let key = self.state.register_dynamic_output(dynamic, promises, converted, lambda)?;
        Ok(DynamicValue { dynamic_output_key: key })
    }
}

} // verus!
