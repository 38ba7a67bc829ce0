use dynamic_analysis::artifact::{
    Artifact, DeclaredArtifact, ExecutionPlatformResolution, OutputType, UnregisteredAction,
};
use dynamic_analysis::deferred::{BaseDeferredKey, BaseKey, DeferredId, DeferredRegistry};
use dynamic_analysis::dynamic::{DynamicRegistry, DynamicValue};
use dynamic_analysis::dynamic_output::{
    AnalysisActions, SoftError, StarlarkOutputOrDeclaredArtifact,
};
use dynamic_analysis::error::AnalysisError;
use dynamic_analysis::registry::AnalysisRegistry;
use dynamic_analysis::storage::{AnalysisValueFetcher, HeapObject, Module, Value};

fn platform() -> ExecutionPlatformResolution {
    ExecutionPlatformResolution { platform: None }
}

fn new_registry() -> AnalysisRegistry<DynamicRegistry> {
    AnalysisRegistry::new_from_owner(BaseDeferredKey { unit: 2 }, platform())
}

fn action(name: &str) -> UnregisteredAction {
    UnregisteredAction { category: "run".to_string(), identifier: name.to_string() }
}

fn out(a: DeclaredArtifact) -> StarlarkOutputOrDeclaredArtifact {
    StarlarkOutputOrDeclaredArtifact::Output(a.as_output())
}

#[test]
fn empty_outputs_rejected_without_key() {
    let mut reg = new_registry();
    let dep = reg.declare_output(None, "dep", OutputType::File).unwrap();
    let mut actions = AnalysisActions::new(reg, None, None);
    let mut env = Module::new();
    let err = actions
        .dynamic_output(&mut env, vec![Artifact::Declared(dep)], vec![], None, vec![], Value {
            handle: 1,
        })
        .unwrap_err();
    assert_eq!(err, AnalysisError::EmptyOutput);
    assert_eq!(actions.registry().issued_key_count(), 0);
    assert!(actions.soft_errors().is_empty());
    assert_eq!(env.module_heap().object_count(), 0);
}

#[test]
fn bound_output_rejected_even_beside_valid_ones() {
    let mut reg = new_registry();
    let bound = reg.declare_output(None, "bound", OutputType::File).unwrap();
    let free = reg.declare_output(None, "free", OutputType::File).unwrap();
    reg.register_action(vec![], vec![bound.as_output()], action("a"), None, None).unwrap();
    let mut actions = AnalysisActions::new(reg, None, None);
    let mut env = Module::new();
    let err = actions
        .dynamic_output(&mut env, vec![], vec![], None, vec![out(free), out(bound)], Value {
            handle: 1,
        })
        .unwrap_err();
    assert_eq!(err, AnalysisError::AlreadyBound);
    assert_eq!(actions.registry().is_artifact_bound(free), Some(false));
    assert_eq!(actions.registry().issued_key_count(), 1);
}

#[test]
fn declared_output_is_soft_error_but_registers() {
    let mut reg = new_registry();
    let a = reg.declare_output(None, "a", OutputType::File).unwrap();
    let b = reg.declare_output(None, "b", OutputType::File).unwrap();
    let mut actions = AnalysisActions::new(reg, None, None);
    let mut env = Module::new();
    let v = actions
        .dynamic_output(
            &mut env,
            vec![],
            vec![],
            Some(vec![Artifact::Source(5)]),
            vec![StarlarkOutputOrDeclaredArtifact::Declared(a), out(b)],
            Value { handle: 3 },
        )
        .unwrap();
    assert_eq!(v.dynamic_output_key.id(), DeferredId { id: 0 });
    assert_eq!(actions.soft_errors(), &vec![SoftError::DynamicOutputOutputDeclared(a)]);
    assert_eq!(actions.registry().is_artifact_bound(a), Some(true));
    assert_eq!(actions.registry().is_artifact_bound(b), Some(true));
}

#[test]
fn two_identical_registrations_get_distinct_keys() {
    let mut reg = new_registry();
    let dep = reg.declare_output(None, "dep", OutputType::File).unwrap();
    let o1 = reg.declare_output(None, "o1", OutputType::File).unwrap();
    let o2 = reg.declare_output(None, "o2", OutputType::File).unwrap();
    let mut actions = AnalysisActions::new(reg, None, None);
    let mut env = Module::new();
    let first = actions
        .dynamic_output(&mut env, vec![Artifact::Declared(dep)], vec![], None, vec![out(o1)], Value {
            handle: 9,
        })
        .unwrap();
    let second = actions
        .dynamic_output(&mut env, vec![Artifact::Declared(dep)], vec![], None, vec![out(o2)], Value {
            handle: 9,
        })
        .unwrap();
    assert_ne!(first.dynamic_output_key.id(), second.dynamic_output_key.id());
    let third = actions
        .dynamic_output(
            &mut env,
            vec![],
            vec![first.duplicate(), second.duplicate()],
            None,
            vec![out(o1)],
            Value { handle: 9 },
        )
        .unwrap_err();
    assert_eq!(third, AnalysisError::AlreadyBound);
    assert_eq!(actions.registry().issued_key_count(), 2);
}

/// Registers one dynamic output with a trigger and two outputs, commits
/// the evaluation, and runs the stored callback's analysis, binding the
/// outputs named by `bind`.
fn run_dynamic(bind: &[bool]) -> Result<(), AnalysisError> {
    let mut reg = new_registry();
    let dep = reg.declare_output(None, "deps.txt", OutputType::File).unwrap();
    reg.register_action(vec![Artifact::Source(1)], vec![dep.as_output()], action("scan"), None, None)
        .unwrap();
    let o1 = reg.declare_output(None, "out1", OutputType::File).unwrap();
    let o2 = reg.declare_output(None, "out2", OutputType::File).unwrap();
    let mut actions = AnalysisActions::new(reg, Some(Value { handle: 100 }), Some(Value { handle: 101 }));
    let mut env = Module::new();
    let dv: DynamicValue = actions
        .dynamic_output(
            &mut env,
            vec![Artifact::Declared(dep)],
            vec![],
            None,
            vec![out(o1), out(o2)],
            Value { handle: 55 },
        )
        .unwrap();
    let reg = actions.into_registry();
    assert_eq!(reg.is_artifact_bound(o1), Some(true));
    assert_eq!(reg.is_artifact_bound(o2), Some(true));
    let p1 = reg.artifact_path(o1).unwrap().duplicate();
    let p2 = reg.artifact_path(o2).unwrap().duplicate();

    let committer = reg.finalize(&mut env).unwrap();
    let (frozen, deferred) = committer.commit(env).unwrap();
    let key_id = dv.dynamic_output_key.id();
    assert!(deferred.is_bound(key_id));
    let fetcher = AnalysisValueFetcher::new(Some(frozen));
    let lambda = fetcher.get(key_id).unwrap().unwrap();
    let frozen = fetcher.into_module().unwrap();
    match frozen.frozen_heap().get(lambda) {
        Some(HeapObject::DynamicLambda(params)) => {
            assert_eq!(params.lambda, Value { handle: 55 });
            assert_eq!(params.attributes, Some(Value { handle: 100 }));
            assert_eq!(params.plugins, Some(Value { handle: 101 }));
        }
        _ => panic!("expected the dynamic callback"),
    }

    // The callback runs with fresh handles for the outputs, owned by the
    // dynamic computation.
    let mut inner: AnalysisRegistry<DynamicRegistry> = AnalysisRegistry::new_from_owner_and_deferred(
        BaseDeferredKey { unit: 2 },
        platform(),
        DeferredRegistry::new(BaseKey::Deferred(dv.dynamic_output_key.duplicate())),
    );
    let f1 = inner.declare_dynamic_output(p1, OutputType::File);
    let f2 = inner.declare_dynamic_output(p2, OutputType::File);
    let fresh = [f1, f2];
    let mut to_bind = Vec::new();
    for (i, b) in bind.iter().enumerate() {
        if *b {
            to_bind.push(fresh[i].as_output());
        }
    }
    inner.register_action(vec![], to_bind, action("compile"), None, None).unwrap();
    let mut inner_env = Module::new();
    let committer = inner.finalize(&mut inner_env).unwrap();
    committer.commit(inner_env).map(|_| ())
}

#[test]
fn dynamic_output_end_to_end_binds_both() {
    assert_eq!(run_dynamic(&[true, true]), Ok(()));
}

#[test]
fn dynamic_output_end_to_end_unbound_output_is_error() {
    assert_eq!(run_dynamic(&[true, false]), Err(AnalysisError::UnboundArtifact));
    assert_eq!(run_dynamic(&[false, true]), Err(AnalysisError::UnboundArtifact));
}

#[test]
fn dynamic_output_binds_fresh_handles_only_once() {
    let mut inner: AnalysisRegistry<DynamicRegistry> = AnalysisRegistry::new_from_owner(BaseDeferredKey { unit: 3 }, platform());
    let p = dynamic_analysis::path::ForwardRelativePathBuf::new("x").unwrap();
    let f = inner.declare_dynamic_output(p, OutputType::File);
    inner.register_action(vec![], vec![f.as_output()], action("one"), None, None).unwrap();
    assert_eq!(
        inner.register_action(vec![], vec![f.as_output()], action("two"), None, None).unwrap_err(),
        AnalysisError::AlreadyBound
    );
}

#[test]
fn soft_error_category() {
    let e = SoftError::DynamicOutputOutputDeclared(DeclaredArtifact { index: 0 });
    assert_eq!(e.category(), "dynamic_output_output_declared");
}

#[test]
fn repeated_output_registers_once() {
    let mut reg = new_registry();
    let a = reg.declare_output(None, "a", OutputType::File).unwrap();
    let mut actions = AnalysisActions::new(reg, None, None);
    let mut env = Module::new();
    let v = actions
        .dynamic_output(
            &mut env,
            vec![],
            vec![],
            None,
            vec![out(a), StarlarkOutputOrDeclaredArtifact::Declared(a), out(a)],
            Value { handle: 4 },
        )
        .unwrap();
    assert_eq!(v.dynamic_output_key.id(), DeferredId { id: 0 });
    assert_eq!(actions.registry().is_artifact_bound(a), Some(true));
    assert_eq!(actions.soft_errors(), &vec![SoftError::DynamicOutputOutputDeclared(a)]);
    assert_eq!(actions.registry().issued_key_count(), 1);
}
