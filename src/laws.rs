//! Properties that relate several operations of the library.

use vstd::prelude::*;

use crate::artifact::{outputs_bindable, DeclaredArtifact, OutputArtifact};
use crate::deferred::{lemma_key_for_injective, DeferredId, DeferredKey, DeferredRegistry};
use crate::dynamic::DynamicRegistryDyn;
use crate::dynamic_output::{output_artifacts_of, StarlarkOutputOrDeclaredArtifact};
use crate::error::AnalysisError;
use crate::path::is_forward_relative;
use crate::registry::{full_path, is_empty_file_name, keys_kept, AnalysisRegistry};
use crate::storage::{AnalysisValueFetcher, FrozenModule, Module, Value};

verus! {

/// Keys never collide: a key issued before stays issued while the
/// allocator only grows, and a registration returns a key that was not
/// issued before it, so it differs from every earlier one.
pub proof fn law_registration_keys_distinct(
    earlier: DeferredRegistry,
    later: DeferredRegistry,
    first: DeferredKey,
    second: DeferredKey,
)
    requires
        earlier.has_issued(first),
        keys_kept(earlier, later),
        !later.has_issued(second),
    ensures
        later.has_issued(first),
        first != second,
{
    let i = choose|i: u64| i < earlier.issued() && first == #[trigger] earlier.base().key_for(i);
    assert(first == later.base().key_for(i));
}

/// Two keys of one allocator with different ids are different keys.
pub proof fn law_distinct_ids_distinct_keys(deferred: DeferredRegistry, a: u64, b: u64)
    requires
        a != b,
    ensures
        deferred.base().key_for(a) != deferred.base().key_for(b),
{
    lemma_key_for_injective(deferred.base(), a, b);
}

/// Passing a declared artifact as an output of `dynamic_output` registers
/// exactly what passing it in its output role does: only the soft error
/// differs.
pub proof fn law_declared_output_registers_as_output(
    outputs: Seq<StarlarkOutputOrDeclaredArtifact>,
    i: int,
    d: DeclaredArtifact,
)
    requires
        0 <= i < outputs.len(),
    ensures
        output_artifacts_of(outputs.update(i, StarlarkOutputOrDeclaredArtifact::Declared(d)))
            == output_artifacts_of(
            outputs.update(i, StarlarkOutputOrDeclaredArtifact::Output(OutputArtifact { artifact: d })),
        ),
{
    assert(output_artifacts_of(outputs.update(i, StarlarkOutputOrDeclaredArtifact::Declared(d)))
        =~= output_artifacts_of(
        outputs.update(i, StarlarkOutputOrDeclaredArtifact::Output(OutputArtifact { artifact: d })),
    ));
}

/// An already-bound artifact among the outputs makes the whole set
/// unbindable, whatever the other outputs are: registration then fails.
pub proof fn law_bound_output_rejected(
    bound: Seq<Option<DeferredId>>,
    outs: Seq<OutputArtifact>,
    i: int,
)
    requires
        0 <= i < outs.len(),
        outs[i].artifact.index < bound.len(),
        bound[outs[i].artifact.index as int] is Some,
    ensures
        !outputs_bindable(bound, outs),
{
}

/// Naming an output again changes nothing: the outputs are a set.
pub proof fn law_repeated_output_ignored(
    bound: Seq<Option<DeferredId>>,
    outs: Seq<OutputArtifact>,
    i: int,
)
    requires
        0 <= i < outs.len(),
    ensures
        outputs_bindable(bound, outs.push(outs[i])) == outputs_bindable(bound, outs),
{
    let more = outs.push(outs[i]);
    if outputs_bindable(bound, outs) {
        assert forall|j: int| 0 <= j < more.len() implies #[trigger] more[j].artifact.index
            < bound.len() by {
            if j == outs.len() {
                assert(more[j] == outs[i]);
            } else {
                assert(more[j] == outs[j]);
            }
        }
        assert forall|j: int| 0 <= j < more.len() implies bound[#[trigger] more[
            j
        ].artifact.index as int] is None by {
            if j == outs.len() {
                assert(more[j] == outs[i]);
            } else {
                assert(more[j] == outs[j]);
            }
        }
    }
    if outputs_bindable(bound, more) {
        assert forall|j: int| 0 <= j < outs.len() implies #[trigger] outs[j].artifact.index
            < bound.len() by {
            assert(more[j] == outs[j]);
        }
        assert forall|j: int| 0 <= j < outs.len() implies bound[#[trigger] outs[
            j
        ].artifact.index as int] is None by {
            assert(more[j] == outs[j]);
        }
    }
}

/// A well-formed name can be declared exactly once: `declare_output`
/// succeeds where its path is unclaimed and fails with `PathConflict`
/// where it was claimed, as it is after a first declaration there.
pub proof fn law_declare_output_once<D: DynamicRegistryDyn>(
    reg: AnalysisRegistry<D>,
    prefix: Option<Seq<char>>,
    filename: Seq<char>,
)
    requires
        !is_empty_file_name(filename),
        is_forward_relative(filename),
        prefix matches Some(p) ==> is_forward_relative(p),
    ensures
        reg.declare_output_error(prefix, filename) is None <==> !reg.actions().claimed().contains(
            full_path(prefix, filename),
        ),
        reg.actions().claimed().contains(full_path(prefix, filename)) ==> reg.declare_output_error(
            prefix,
            filename,
        ) == Some(AnalysisError::PathConflict),
        reg.actions().claimed().push(full_path(prefix, filename)).contains(full_path(prefix, filename)),
{
    let c = reg.actions().claimed().push(full_path(prefix, filename));
    assert(c[c.len() - 1] == full_path(prefix, filename));
}

/// The names `""` and `.` are never declared: they fail with
/// `DeclaredEmptyFileName` whatever the registry holds.
pub proof fn law_empty_file_name_rejected<D: DynamicRegistryDyn>(
    reg: AnalysisRegistry<D>,
    prefix: Option<Seq<char>>)
    ensures
        reg.declare_output_error(prefix, Seq::empty()) == Some(AnalysisError::DeclaredEmptyFileName),
        reg.declare_output_error(prefix, seq!['.']) == Some(AnalysisError::DeclaredEmptyFileName),
{
}

/// Values survive the freeze: once `finalize` has published a registry's
/// storage into `env` and the committer has frozen `env` into `frozen`,
/// fetching an id gives the value last recorded for it, and nothing for
/// an id that never had one.
pub proof fn law_values_survive_commit<D: DynamicRegistryDyn>(
    reg: AnalysisRegistry<D>,
    env: Module,
    frozen: FrozenModule,
    fetcher: AnalysisValueFetcher,
    id: DeferredId,
)
    requires
        env.storage() == Some(reg.storage()),
        frozen.storage() matches Some(f) && f.values() == reg.storage().values(),
        fetcher.module() == Some(frozen),
    ensures
        fetcher.spec_get(id) == Ok::<Option<Value>, AnalysisError>(reg.storage().values().get(id.id)),
        !reg.storage().values().contains_key(id.id) ==> fetcher.spec_get(id) == Ok::<Option<Value>, AnalysisError>(None),
{
}

/// Before anything is frozen there is nothing to fetch: a fetcher without
/// a module finds no value and no error handler for any id.
pub proof fn law_nothing_before_freeze(fetcher: AnalysisValueFetcher, id: DeferredId)
    requires
        fetcher.module() is None,
    ensures
        fetcher.spec_get(id) == Ok::<Option<Value>, AnalysisError>(None),
        fetcher.spec_get_error_handler(id) == Ok::<Option<Value>, AnalysisError>(None),
{
}

} // verus!
