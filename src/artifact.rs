//! Artifacts and the actions registry: path claims, artifact declaration,
//! and the binding of declared artifacts to the actions that produce them.

use vstd::prelude::*;

use crate::deferred::{DeferredId, DeferredKey, DeferredRegistry};
use crate::error::AnalysisError;
use crate::path::{join_paths, ForwardRelativePathBuf};

verus! {

/// What an action produces at an output path.
#[derive(Clone, Copy, Debug, PartialEq, Eq, Structural, Hash)]
pub enum OutputType {
    File,
    Directory,
    FileOrDirectory,
}

/// Whether an artifact declared as `declared` may be used where
/// `requested` is asked for.
pub open spec fn output_types_compatible(declared: OutputType, requested: OutputType) -> bool {
    declared == OutputType::FileOrDirectory || requested == OutputType::FileOrDirectory
        || declared == requested
}

/// Whether an artifact declared as `declared` may be used where
/// `requested` is asked for.
pub fn check_output_type(declared: OutputType, requested: OutputType) -> (r: Result<
    (),
    AnalysisError,
>)
    ensures
        r is Ok <==> output_types_compatible(declared, requested),
        r matches Err(e) ==> e == AnalysisError::WrongOutputType,
{
    match (declared, requested) {
        (OutputType::FileOrDirectory, _) => Ok(()),
        (_, OutputType::FileOrDirectory) => Ok(()),
        (OutputType::File, OutputType::File) => Ok(()),
        (OutputType::Directory, OutputType::Directory) => Ok(()),
        _ => Err(AnalysisError::WrongOutputType),
    }
}

/// An artifact declared in an actions registry, by its index there.
#[derive(Clone, Copy, Debug, PartialEq, Eq, Structural, Hash)]
pub struct DeclaredArtifact {
    pub index: u64,
}

/// A declared artifact in the role of an output: it can only be bound.
#[derive(Clone, Copy, Debug, PartialEq, Eq, Structural, Hash)]
pub struct OutputArtifact {
    pub artifact: DeclaredArtifact,
}

/// An artifact that can be read: a source file, identified by number, or
/// an artifact declared in this evaluation.
#[derive(Clone, Copy, Debug, PartialEq, Eq, Structural, Hash)]
pub enum Artifact {
    Source(u64),
    Declared(DeclaredArtifact),
}

impl DeclaredArtifact {
    /// This artifact in the role of an output.
    pub fn as_output(&self) -> (r: OutputArtifact)
        ensures
            r.artifact == *self,
    {
        OutputArtifact { artifact: *self }
    }
}

/// `index` as a position of a sequence of length `len`, if it is one.
fn position_in(index: u64, len: usize) -> (r: Option<usize>)
    ensures
        r matches Some(k) ==> k == index && index < len,
        r is None ==> index >= len,
{
    if (index as u128) < (len as u128) {
        Some(index as usize)
    } else {
        None
    }
}

/// The elements of `s` in order of first occurrence, each once.
pub open spec fn dedup_seq<A>(s: Seq<A>) -> Seq<A>
    decreases s.len(),
{
    if s.len() == 0 {
        Seq::empty()
    } else {
        let front = dedup_seq(s.drop_last());
        if front.contains(s.last()) {
            front
        } else {
            front.push(s.last())
        }
    }
}

/// `dedup_seq` holds each element of `s` exactly once.
pub proof fn lemma_dedup_seq<A>(s: Seq<A>)
    ensures
        dedup_seq(s).no_duplicates(),
        forall|x: A| dedup_seq(s).contains(x) <==> s.contains(x),
    decreases s.len(),
{
    if s.len() > 0 {
        lemma_dedup_seq(s.drop_last());
        let front = dedup_seq(s.drop_last());
        assert forall|x: A| dedup_seq(s).contains(x) <==> s.contains(x) by {
            if s.contains(x) {
                let i = choose|i: int| 0 <= i < s.len() && s[i] == x;
                if i < s.len() - 1 {
                    assert(s.drop_last()[i] == x);
                }
            }
            if s.drop_last().contains(x) {
                let i = choose|i: int| 0 <= i < s.drop_last().len() && s.drop_last()[i] == x;
                assert(s[i] == x);
            }
            if !front.contains(s.last()) {
                let f2 = front.push(s.last());
                if f2.contains(x) {
                    let i = choose|i: int| 0 <= i < f2.len() && f2[i] == x;
                    if i < front.len() {
                        assert(front[i] == x);
                    }
                }
                if front.contains(x) {
                    let i = choose|i: int| 0 <= i < front.len() && front[i] == x;
                    assert(f2[i] == x);
                }
                assert(f2[front.len() as int] == s.last());
            }
            assert(s[s.len() - 1] == s.last());
        }
    }
}

/// The outputs of `outputs`, each once, in order of first occurrence.
pub fn unique_outputs(outputs: &Vec<OutputArtifact>) -> (r: Vec<OutputArtifact>)
    ensures
        r@ == dedup_seq(outputs@),
{
    let mut r: Vec<OutputArtifact> = Vec::new();
    let n = outputs.len();
    let mut i: usize = 0;
    while i < n
        invariant
            n == outputs@.len(),
            i <= n,
            r@ == dedup_seq(outputs@.subrange(0, i as int)),
        decreases n - i,
    {
        let o = outputs[i];
        let mut found = false;
        let m = r.len();
        let mut j: usize = 0;
        while j < m
            invariant
                m == r@.len(),
                j <= m,
                found == exists|k: int| 0 <= k < j && r@[k] == o,
            decreases m - j,
        {
            if r[j] == o {
                found = true;
            }
            j = j + 1;
        }
        proof {
            let sub = outputs@.subrange(0, i as int + 1);
            assert(sub.drop_last() =~= outputs@.subrange(0, i as int));
            assert(sub.last() == o);
            if found {
                let k = choose|k: int| 0 <= k < m && r@[k] == o;
                assert(r@.contains(o));
            } else {
                assert(!r@.contains(o));
            }
        }
        if !found {
            r.push(o);
        }
        i = i + 1;
    }
    assert(outputs@.subrange(0, n as int) =~= outputs@);
    r
}

/// An action to be registered: what it does is the execution engine's
/// business, and is carried through unread.
#[derive(Debug)]
pub struct UnregisteredAction {
    pub category: String,
    pub identifier: String,
}

/// An action admitted to the graph, under its deferred key.
#[derive(Debug)]
pub struct RegisteredAction {
    pub key: DeferredKey,
    pub inputs: Vec<Artifact>,
    pub outputs: Vec<OutputArtifact>,
    pub action: UnregisteredAction,
}

/// The resolved execution platform of the evaluation, if one was picked.
#[derive(Debug)]
pub struct ExecutionPlatformResolution {
    pub platform: Option<String>,
}

/// Whether some output in `outs` refers to the artifact with index `k`.
pub open spec fn names_artifact(outs: Seq<OutputArtifact>, k: int) -> bool {
    exists|i: int| 0 <= i < outs.len() && #[trigger] outs[i].artifact.index == k
}

/// Whether every output in `outs` is an artifact of `bound` (the binding
/// state of a registry's artifacts) that is still unbound. `outs` is read
/// as a set: an output named twice is one output.
pub open spec fn outputs_bindable(bound: Seq<Option<DeferredId>>, outs: Seq<OutputArtifact>) -> bool {
    &&& forall|i: int| 0 <= i < outs.len() ==> #[trigger] outs[i].artifact.index < bound.len()
    &&& forall|i: int|
        0 <= i < outs.len() ==> bound[#[trigger] outs[i].artifact.index as int] is None
}

/// The binding state `bound` after every artifact of `outs` is bound to `id`.
pub open spec fn bind_outputs(
    bound: Seq<Option<DeferredId>>,
    outs: Seq<OutputArtifact>,
    id: DeferredId,
) -> Seq<Option<DeferredId>> {
    Seq::new(bound.len(), |k: int| if names_artifact(outs, k) { Some(id) } else { bound[k] })
}

/// Whether no artifact of `bound` is left unbound.
pub open spec fn all_artifacts_bound(bound: Seq<Option<DeferredId>>) -> bool {
    forall|k: int| 0 <= k < bound.len() ==> (#[trigger] bound[k]) is Some
}

/// The actions of one evaluation and the artifacts it declares.
#[derive(Debug)]
pub struct ActionsRegistry {
    action_key: Option<String>,
    execution_platform: ExecutionPlatformResolution,
    paths: Vec<ForwardRelativePathBuf>,
    output_types: Vec<OutputType>,
    bound: Vec<Option<DeferredId>>,
    claimed: Vec<ForwardRelativePathBuf>,
    actions: Vec<RegisteredAction>,
}

impl ActionsRegistry {
    /// The path of each declared artifact, by index.
    pub closed spec fn paths(&self) -> Seq<Seq<char>> {
        self.paths@.map_values(|p: ForwardRelativePathBuf| p@)
    }

    /// The output type of each declared artifact, by index.
    pub closed spec fn output_types(&self) -> Seq<OutputType> {
        self.output_types@
    }

    /// For each declared artifact, the id of the deferred computation it is
    /// bound to, if it is bound.
    pub closed spec fn bound(&self) -> Seq<Option<DeferredId>> {
        self.bound@
    }

    /// The claimed output paths, in the order they were claimed.
    pub closed spec fn claimed(&self) -> Seq<Seq<char>> {
        self.claimed@.map_values(|p: ForwardRelativePathBuf| p@)
    }

    /// The keys of the registered actions, in order.
    pub closed spec fn action_keys(&self) -> Seq<DeferredKey> {
        self.actions@.map_values(|a: RegisteredAction| a.key)
    }

    /// The action key set for this registry, if any.
    pub closed spec fn action_key(&self) -> Option<String> {
        self.action_key
    }

    /// The execution platform of this registry.
    pub closed spec fn spec_execution_platform(&self) -> ExecutionPlatformResolution {
        self.execution_platform
    }

    /// The registry's own invariant: one path, type and binding per
    /// artifact, and no path claimed twice.
    pub open spec fn wf(&self) -> bool {
        &&& self.paths().len() == self.bound().len()
        &&& self.output_types().len() == self.bound().len()
        &&& forall|i: int, j: int|
            0 <= i < j < self.claimed().len() ==> self.claimed()[i] != self.claimed()[j]
    }

    /// The number of declared artifacts.
    pub open spec fn artifact_count(&self) -> nat {
        self.bound().len()
    }

    /// An empty registry.
    pub fn new(execution_platform: ExecutionPlatformResolution) -> (r: ActionsRegistry)
        ensures
            r.wf(),
            r.bound() == Seq::<Option<DeferredId>>::empty(),
            r.claimed() == Seq::<Seq<char>>::empty(),
            r.action_keys() == Seq::<DeferredKey>::empty(),
            r.action_key() is None,
            r.spec_execution_platform() == execution_platform,
    {
        let r = ActionsRegistry {
            action_key: None,
            execution_platform,
            paths: Vec::new(),
            output_types: Vec::new(),
            bound: Vec::new(),
            claimed: Vec::new(),
            actions: Vec::new(),
        };
        assert(r.paths() =~= Seq::<Seq<char>>::empty());
        assert(r.claimed() =~= Seq::<Seq<char>>::empty());
        assert(r.action_keys() =~= Seq::<DeferredKey>::empty());
        r
    }

    /// Sets the key that names the actions of this registry.
    pub fn set_action_key(&mut self, action_key: String)
        ensures
            final(self).action_key() == Some(action_key),
            final(self).paths() == old(self).paths(),
            final(self).output_types() == old(self).output_types(),
            final(self).bound() == old(self).bound(),
            final(self).claimed() == old(self).claimed(),
            final(self).action_keys() == old(self).action_keys(),
            final(self).spec_execution_platform() == old(self).spec_execution_platform(),
    {
        self.action_key = Some(action_key);
    }

    /// The execution platform of this registry.
    pub fn execution_platform(&self) -> (r: &ExecutionPlatformResolution)
        ensures
            *r == self.spec_execution_platform(),
    {
        &self.execution_platform
    }

    /// Whether `path` has been claimed.
    fn is_claimed(&self, path: &ForwardRelativePathBuf) -> (r: bool)
        ensures
            r == self.claimed().contains(path@),
    {
        let n = self.claimed.len();
        let mut i: usize = 0;
        while i < n
            invariant
                n == self.claimed().len(),
                i <= n,
                forall|j: int| 0 <= j < i ==> self.claimed()[j] != path@,
            decreases n - i,
        {
            if self.claimed[i].same_as(path) {
                assert(self.claimed()[i as int] == path@);
                return true;
            }
            i = i + 1;
        }
        false
    }

    /// Reserves `path` for an output of this evaluation, without declaring
    /// an artifact there. Fails where it was claimed before.
    pub fn claim_output_path(&mut self, path: &ForwardRelativePathBuf) -> (r: Result<
        (),
        AnalysisError,
    >)
        requires
            old(self).wf(),
        ensures
            final(self).wf(),
            r is Ok <==> !old(self).claimed().contains(path@),
            r is Ok ==> final(self).claimed() == old(self).claimed().push(path@),
            r matches Err(e) ==> e == AnalysisError::PathConflict && final(self).claimed()
                == old(self).claimed(),
            final(self).paths() == old(self).paths(),
            final(self).output_types() == old(self).output_types(),
            final(self).bound() == old(self).bound(),
            final(self).action_keys() == old(self).action_keys(),
            final(self).action_key() == old(self).action_key(),
            final(self).spec_execution_platform() == old(self).spec_execution_platform(),
    {
        if self.is_claimed(path) {
            return Err(AnalysisError::PathConflict);
        }
        self.claimed.push(path.duplicate());
        proof {
            assert(self.claimed() =~= old(self).claimed().push(path@));
        }
        Ok(())
    }

    /// Declares an unbound artifact at `prefix`/`path`, claiming that path.
    pub fn declare_artifact(
        &mut self,
        prefix: Option<ForwardRelativePathBuf>,
        path: ForwardRelativePathBuf,
        output_type: OutputType,
    ) -> (r: Result<DeclaredArtifact, AnalysisError>)
        requires
            old(self).wf(),
            old(self).artifact_count() < u64::MAX,
        ensures
            final(self).wf(),
            ({
                let full = match prefix {
                    Some(p) => join_paths(p@, path@),
                    None => path@,
                };
                &&& r is Ok <==> !old(self).claimed().contains(full)
                &&& r matches Ok(a) ==> {
                    &&& a.index == old(self).artifact_count()
                    &&& final(self).claimed() == old(self).claimed().push(full)
                    &&& final(self).paths() == old(self).paths().push(full)
                    &&& final(self).output_types() == old(self).output_types().push(output_type)
                    &&& final(self).bound() == old(self).bound().push(None)
                }
                &&& r matches Err(e) ==> e == AnalysisError::PathConflict && final(self).claimed()
                    == old(self).claimed() && final(self).bound() == old(self).bound()
                    && final(self).paths() == old(self).paths() && final(self).output_types()
                    == old(self).output_types()
            }),
            final(self).action_keys() == old(self).action_keys(),
            final(self).action_key() == old(self).action_key(),
            final(self).spec_execution_platform() == old(self).spec_execution_platform(),
    {
        let full = match prefix {
            Some(p) => p.join(&path),
            None => path,
        };
        self.claim_output_path(&full)?;
        let index = self.bound.len() as u64;
        self.paths.push(full);
        self.output_types.push(output_type);
        self.bound.push(None);
        proof {
            assert(self.paths() =~= old(self).paths().push(full@));
        }
        Ok(DeclaredArtifact { index })
    }

    /// Declares an unbound artifact at `path` for an output of a dynamic
    /// computation. The path was claimed by the evaluation that registered
    /// the computation, so it is not claimed again.
    pub fn declare_dynamic_output(&mut self, path: ForwardRelativePathBuf, output_type: OutputType) -> (r:
        DeclaredArtifact)
        requires
            old(self).wf(),
            old(self).artifact_count() < u64::MAX,
        ensures
            final(self).wf(),
            r.index == old(self).artifact_count(),
            final(self).paths() == old(self).paths().push(path@),
            final(self).output_types() == old(self).output_types().push(output_type),
            final(self).bound() == old(self).bound().push(None),
            final(self).claimed() == old(self).claimed(),
            final(self).action_keys() == old(self).action_keys(),
            final(self).action_key() == old(self).action_key(),
            final(self).spec_execution_platform() == old(self).spec_execution_platform(),
    {
        let index = self.bound.len() as u64;
        let ghost p = path@;
        self.paths.push(path);
        self.output_types.push(output_type);
        self.bound.push(None);
        proof {
            assert(self.paths() =~= old(self).paths().push(p));
            assert(self.claimed() == old(self).claimed());
        }
        DeclaredArtifact { index }
    }

    /// The output type `artifact` was declared with.
    pub fn output_type_of(&self, artifact: DeclaredArtifact) -> (r: OutputType)
        requires
            self.wf(),
            artifact.index < self.artifact_count(),
        ensures
            r == self.output_types()[artifact.index as int],
    {
        let n = self.output_types.len();
        assert(artifact.index < n);
        self.output_types[artifact.index as usize]
    }

    /// The path `artifact` was declared at.
    pub fn path_of(&self, artifact: DeclaredArtifact) -> (r: &ForwardRelativePathBuf)
        requires
            self.wf(),
            artifact.index < self.artifact_count(),
        ensures
            r@ == self.paths()[artifact.index as int],
    {
        let n = self.paths.len();
        assert(artifact.index < n);
        &self.paths[artifact.index as usize]
    }

    /// Whether `artifact` is an artifact of this registry.
    pub fn is_declared(&self, artifact: DeclaredArtifact) -> (r: bool)
        ensures
            r == (artifact.index < self.artifact_count()),
    {
        artifact.index < self.bound.len() as u64
    }

    /// Whether `artifact`, an artifact of this registry, is bound.
    pub fn is_bound(&self, artifact: DeclaredArtifact) -> (r: bool)
        requires
            artifact.index < self.artifact_count(),
        ensures
            r == self.bound()[artifact.index as int] is Some,
    {
        let n = self.bound.len();
        assert(artifact.index < n);
        self.bound[artifact.index as usize].is_some()
    }

    /// Checks that every output is an unbound artifact of this registry.
    /// An artifact this registry does not hold is reported as
    /// already bound: it cannot be bound here.
    pub fn check_outputs_bindable(&self, outputs: &Vec<OutputArtifact>) -> (r: Result<
        (),
        AnalysisError,
    >)
        ensures
            r is Ok <==> outputs_bindable(self.bound(), outputs@),
            r matches Err(e) ==> e == AnalysisError::AlreadyBound,
    {
        let n = outputs.len();
        let len_usize = self.bound.len();
        let mut i: usize = 0;
        while i < n
            invariant
                n == outputs@.len(),
                len_usize == self.bound().len(),
                i <= n,
                outputs_bindable(self.bound(), outputs@.subrange(0, i as int)),
            decreases n - i,
        {
            let o = outputs[i];
            let k = match position_in(o.artifact.index, len_usize) {
                Some(k) => k,
                None => {
                    return Err(AnalysisError::AlreadyBound);
                },
            };
            if self.bound[k].is_some() {
                return Err(AnalysisError::AlreadyBound);
            }
            proof {
                let s = outputs@.subrange(0, i as int + 1);
                assert forall|a: int| 0 <= a < s.len() implies #[trigger] s[a].artifact.index
                    < self.bound().len() by {
                    if a < i {
                        assert(s[a] == outputs@.subrange(0, i as int)[a]);
                    }
                }
                assert forall|a: int| 0 <= a < s.len() implies self.bound()[#[trigger] s[
                    a
                ].artifact.index as int] is None by {
                    if a < i {
                        assert(s[a] == outputs@.subrange(0, i as int)[a]);
                    }
                }
            }
            i = i + 1;
        }
        assert(outputs@.subrange(0, n as int) =~= outputs@);
        Ok(())
    }

    /// Binds every artifact of `outputs` to `id`.
    pub(crate) fn bind_all(&mut self, outputs: &Vec<OutputArtifact>, id: DeferredId)
        requires
            old(self).wf(),
            outputs_bindable(old(self).bound(), outputs@),
        ensures
            final(self).wf(),
            final(self).bound() == bind_outputs(old(self).bound(), outputs@, id),
            final(self).paths() == old(self).paths(),
            final(self).output_types() == old(self).output_types(),
            final(self).claimed() == old(self).claimed(),
            final(self).action_keys() == old(self).action_keys(),
            final(self).action_key() == old(self).action_key(),
            final(self).spec_execution_platform() == old(self).spec_execution_platform(),
    {
        let n = outputs.len();
        let mut i: usize = 0;
        while i < n
            invariant
                n == outputs@.len(),
                i <= n,
                self.wf(),
                outputs_bindable(old(self).bound(), outputs@),
                self.bound() == bind_outputs(old(self).bound(), outputs@.subrange(0, i as int), id),
                self.paths() == old(self).paths(),
                self.output_types() == old(self).output_types(),
                self.claimed() == old(self).claimed(),
                self.action_keys() == old(self).action_keys(),
                self.action_key() == old(self).action_key(),
                self.spec_execution_platform() == old(self).spec_execution_platform(),
            decreases n - i,
        {
            let k = outputs[i].artifact.index;
            let len = self.bound.len();
            assert(outputs@[i as int].artifact.index < old(self).bound().len());
            assert(k < len);
            self.bound.set(k as usize, Some(id));
            proof {
                let before = outputs@.subrange(0, i as int);
                let after = outputs@.subrange(0, i as int + 1);
                assert forall|m: int| 0 <= m < self.bound().len() implies self.bound()[m]
                    == bind_outputs(old(self).bound(), after, id)[m] by {
                    if m == k {
                        assert(after[i as int].artifact.index == k);
                        assert(names_artifact(after, m));
                    } else {
                        if names_artifact(after, m) {
                            let w = choose|w: int| 0 <= w < after.len() && #[trigger] after[w].artifact.index == m;
                            assert(before[w].artifact.index == m);
                            assert(names_artifact(before, m));
                        }
                        if names_artifact(before, m) {
                            let w = choose|w: int| 0 <= w < before.len() && #[trigger] before[w].artifact.index == m;
                            assert(after[w].artifact.index == m);
                        }
                    }
                }
                assert(self.bound() =~= bind_outputs(old(self).bound(), after, id));
            }
            i = i + 1;
        }
        assert(outputs@.subrange(0, n as int) =~= outputs@);
    }

    /// Admits `action` to the graph under a fresh key of `deferred`, and
    /// binds its outputs to that key. Fails, changing nothing, unless every
    /// output is an unbound artifact of this registry; an output named
    /// twice counts once.
    pub fn register(
        &mut self,
        deferred: &mut DeferredRegistry,
        inputs: Vec<Artifact>,
        outputs: Vec<OutputArtifact>,
        action: UnregisteredAction,
    ) -> (r: Result<DeferredId, AnalysisError>)
        requires
            old(self).wf(),
            old(deferred).issued() < u64::MAX,
        ensures
            final(self).wf(),
            r is Ok <==> outputs_bindable(old(self).bound(), outputs@),
            r matches Ok(id) ==> {
                let key = old(deferred).base().key_for(old(deferred).issued() as u64);
                &&& id == key.spec_id()
                &&& id.id == old(deferred).issued()
                &&& final(deferred).bound_ids() == old(deferred).bound_ids().push(false)
                &&& final(self).bound() == bind_outputs(old(self).bound(), outputs@, id)
                &&& final(self).action_keys() == old(self).action_keys().push(key)
            },
            r matches Err(e) ==> e == AnalysisError::AlreadyBound && final(self).bound()
                == old(self).bound() && final(self).action_keys() == old(self).action_keys()
                && *final(deferred) == *old(deferred),
            final(deferred).base() == old(deferred).base(),
            final(self).paths() == old(self).paths(),
            final(self).output_types() == old(self).output_types(),
            final(self).claimed() == old(self).claimed(),
            final(self).action_key() == old(self).action_key(),
            final(self).spec_execution_platform() == old(self).spec_execution_platform(),
    {
        self.check_outputs_bindable(&outputs)?;
        let key = deferred.reserve();
        let id = key.id();
        self.bind_all(&outputs, id);
        let ghost k = key;
        let outputs = unique_outputs(&outputs);
        self.actions.push(RegisteredAction { key, inputs, outputs, action });
        proof {
            assert(self.action_keys() =~= old(self).action_keys().push(k));
        }
        Ok(id)
    }

    /// Checks that every declared artifact is bound, then binds the key of
    /// every registered action in `deferred`.
    pub fn ensure_bound(self, deferred: &mut DeferredRegistry) -> (r: Result<(), AnalysisError>)
        requires
            forall|i: int|
                0 <= i < self.action_keys().len() ==> (#[trigger] self.action_keys()[i]).spec_id().id
                    < old(deferred).issued(),
        ensures
            r is Ok <==> all_artifacts_bound(self.bound()),
            r matches Err(e) ==> e == AnalysisError::UnboundArtifact,
            final(deferred).base() == old(deferred).base(),
            final(deferred).issued() == old(deferred).issued(),
            forall|i: int|
                0 <= i < old(deferred).issued() ==> #[trigger] final(deferred).bound_ids()[i]
                    == (old(deferred).bound_ids()[i] || (r is Ok && exists|j: int|
                    0 <= j < self.action_keys().len() && self.action_keys()[j].spec_id().id == i)),
    {
        let n = self.bound.len();
        let mut i: usize = 0;
        while i < n
            invariant
                n == self.bound().len(),
                i <= n,
                forall|k: int| 0 <= k < i ==> (#[trigger] self.bound()[k]) is Some,
            decreases n - i,
        {
            if self.bound[i].is_none() {
                return Err(AnalysisError::UnboundArtifact);
            }
            i = i + 1;
        }
        let m = self.actions.len();
        let mut j: usize = 0;
        while j < m
            invariant
                m == self.action_keys().len(),
                j <= m,
                forall|i: int|
                    0 <= i < self.action_keys().len() ==> (#[trigger] self.action_keys()[i]).spec_id().id
                        < deferred.issued(),
                deferred.base() == old(deferred).base(),
                deferred.issued() == old(deferred).issued(),
                forall|i: int|
                    0 <= i < old(deferred).issued() ==> #[trigger] deferred.bound_ids()[i]
                        == (old(deferred).bound_ids()[i] || exists|l: int|
                        0 <= l < j && self.action_keys()[l].spec_id().id == i),
            decreases m - j,
        {
            let id = self.actions[j].key.id();
            assert(self.action_keys()[j as int] == self.actions@[j as int].key);
            deferred.bind(id);
            proof {
                assert forall|i: int| 0 <= i < old(deferred).issued() implies #[trigger] deferred.bound_ids()[i]
                    == (old(deferred).bound_ids()[i] || exists|l: int|
                    0 <= l < j + 1 && self.action_keys()[l].spec_id().id == i) by {
                    if i == id.id {
                        assert(self.action_keys()[j as int].spec_id().id == i);
                    }
                }
            }
            j = j + 1;
        }
        Ok(())
    }
}

} // verus!
