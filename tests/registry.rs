use dynamic_analysis::artifact::{
    Artifact, DeclaredArtifact, ExecutionPlatformResolution, OutputArtifact, OutputType,
    UnregisteredAction,
};
use dynamic_analysis::deferred::{BaseDeferredKey, BaseKey, DeferredId, DeferredKey, DeferredRegistry};
use dynamic_analysis::dynamic::DynamicRegistry;
use dynamic_analysis::error::AnalysisError;
use dynamic_analysis::path::ForwardRelativePathBuf;
use dynamic_analysis::registry::{
    AnalysisRegistry, OutputArtifactArg, PromiseArtifactId, StarlarkDeclaredArtifact,
};
use dynamic_analysis::storage::{
    AnalysisValueFetcher, AnalysisValueStorage, HeapObject, Module, Value,
};

fn new_registry() -> AnalysisRegistry<DynamicRegistry> {
    AnalysisRegistry::new_from_owner(
        BaseDeferredKey { unit: 1 },
        ExecutionPlatformResolution { platform: Some("linux".to_string()) },
    )
}

fn action(name: &str) -> UnregisteredAction {
    UnregisteredAction { category: "run".to_string(), identifier: name.to_string() }
}

fn chars(s: &str) -> Vec<char> {
    s.chars().collect()
}

#[test]
fn declare_output_rejects_empty_file_names() {
    let mut reg = new_registry();
    assert_eq!(
        reg.declare_output(None, "", OutputType::File).unwrap_err(),
        AnalysisError::DeclaredEmptyFileName
    );
    assert_eq!(
        reg.declare_output(None, ".", OutputType::File).unwrap_err(),
        AnalysisError::DeclaredEmptyFileName
    );
    assert_eq!(
        reg.declare_output(Some("dir"), ".", OutputType::File).unwrap_err(),
        AnalysisError::DeclaredEmptyFileName
    );
}

#[test]
fn declare_output_once_per_path() {
    let mut reg = new_registry();
    let a = reg.declare_output(None, "out.txt", OutputType::File).unwrap();
    assert_eq!(a.index, 0);
    assert_eq!(
        reg.declare_output(None, "out.txt", OutputType::File).unwrap_err(),
        AnalysisError::PathConflict
    );
    let b = reg.declare_output(None, "sub/dir/out.txt", OutputType::File).unwrap();
    assert_eq!(b.index, 1);
    assert_eq!(
        reg.declare_output(None, "sub/dir/out.txt", OutputType::Directory).unwrap_err(),
        AnalysisError::PathConflict
    );
    assert_eq!(reg.is_artifact_bound(a), Some(false));
    assert_eq!(reg.is_artifact_bound(DeclaredArtifact { index: 9 }), None);
}

#[test]
fn declare_output_joins_prefix() {
    let mut reg = new_registry();
    let a = reg.declare_output(Some("gen"), "a.o", OutputType::File).unwrap();
    assert_eq!(reg.artifact_path(a).unwrap().as_chars(), &chars("gen/a.o"));
    assert_eq!(
        reg.declare_output(None, "gen/a.o", OutputType::File).unwrap_err(),
        AnalysisError::PathConflict
    );
    let b = reg.declare_output(Some(""), "b.o", OutputType::File).unwrap();
    assert_eq!(reg.artifact_path(b).unwrap().as_chars(), &chars("b.o"));
}

#[test]
fn declare_output_rejects_bad_paths() {
    let mut reg = new_registry();
    for bad in ["..", "a/../b", "/abs", "a//b", "a/", "./a", "a/."] {
        assert_eq!(
            reg.declare_output(None, bad, OutputType::File).unwrap_err(),
            AnalysisError::InvalidPath,
            "{}",
            bad
        );
    }
    assert_eq!(
        reg.declare_output(Some("../x"), "a", OutputType::File).unwrap_err(),
        AnalysisError::InvalidPath
    );
    assert!(reg.declare_output(None, ".hidden", OutputType::File).is_ok());
    assert!(reg.declare_output(None, "a..b/...", OutputType::File).is_ok());
    assert_eq!(reg.issued_key_count(), 0);
}

#[test]
fn claim_output_path_conflicts() {
    let mut reg = new_registry();
    let p = ForwardRelativePathBuf::new("reserved").unwrap();
    reg.claim_output_path(&p).unwrap();
    assert_eq!(reg.claim_output_path(&p).unwrap_err(), AnalysisError::PathConflict);
    assert_eq!(
        reg.declare_output(None, "reserved", OutputType::File).unwrap_err(),
        AnalysisError::PathConflict
    );
    reg.declare_output(None, "other", OutputType::File).unwrap();
    let q = ForwardRelativePathBuf::new("other").unwrap();
    assert_eq!(reg.claim_output_path(&q).unwrap_err(), AnalysisError::PathConflict);
}

#[test]
fn forward_relative_paths() {
    assert!(ForwardRelativePathBuf::new("").is_ok());
    assert!(ForwardRelativePathBuf::new("a/b/c").is_ok());
    assert_eq!(ForwardRelativePathBuf::new("a/./b").unwrap_err(), AnalysisError::InvalidPath);
    let a = ForwardRelativePathBuf::new("a/b").unwrap();
    let b = ForwardRelativePathBuf::new("c").unwrap();
    assert_eq!(a.join(&b).as_chars(), &chars("a/b/c"));
    assert_eq!(a.join(&ForwardRelativePathBuf::empty()).as_chars(), &chars("a/b"));
    assert!(a.same_as(&ForwardRelativePathBuf::new("a/b").unwrap()));
    assert!(!a.same_as(&b));
}

#[test]
fn get_or_declare_output_shapes() {
    let mut reg = new_registry();
    let (decl, out) = reg
        .get_or_declare_output(OutputArtifactArg::Str("x".to_string()), OutputType::File)
        .unwrap();
    assert_eq!(out.artifact, decl.artifact.artifact);
    assert_eq!(out.artifact.index, 0);

    let (_, out2) = reg
        .get_or_declare_output(OutputArtifactArg::OutputArtifact(out), OutputType::FileOrDirectory)
        .unwrap();
    assert_eq!(out2, out);

    let declared = StarlarkDeclaredArtifact {
        artifact: out.artifact,
        associated_artifacts: vec![Artifact::Source(3)],
    };
    let (decl3, out3) = reg
        .get_or_declare_output(OutputArtifactArg::DeclaredArtifact(declared), OutputType::File)
        .unwrap();
    assert_eq!(out3, out);
    assert_eq!(decl3.artifact.associated_artifacts, vec![Artifact::Source(3)]);

    assert_eq!(
        reg.get_or_declare_output(OutputArtifactArg::OutputArtifact(out), OutputType::Directory)
            .unwrap_err(),
        AnalysisError::WrongOutputType
    );
    assert_eq!(
        reg.get_or_declare_output(
            OutputArtifactArg::WrongArtifact(Artifact::Source(1)),
            OutputType::File
        )
        .unwrap_err(),
        AnalysisError::AlreadyBound
    );
    assert_eq!(
        reg.get_or_declare_output(
            OutputArtifactArg::OutputArtifact(OutputArtifact {
                artifact: DeclaredArtifact { index: 42 }
            }),
            OutputType::File
        )
        .unwrap_err(),
        AnalysisError::AlreadyBound
    );
    assert_eq!(
        reg.get_or_declare_output(OutputArtifactArg::Str("x".to_string()), OutputType::File)
            .unwrap_err(),
        AnalysisError::PathConflict
    );
}

#[test]
fn into_declared_artifact_adds_associated_once() {
    let mut reg = new_registry();
    let (decl, _) = reg
        .get_or_declare_output(OutputArtifactArg::Str("y".to_string()), OutputType::File)
        .unwrap();
    let a = decl.into_declared_artifact(vec![
        Artifact::Source(1),
        Artifact::Source(2),
        Artifact::Source(1),
    ]);
    assert_eq!(a.associated_artifacts, vec![Artifact::Source(1), Artifact::Source(2)]);
}

#[test]
fn register_action_binds_outputs_once() {
    let mut reg = new_registry();
    let a = reg.declare_output(None, "a", OutputType::File).unwrap();
    let b = reg.declare_output(None, "b", OutputType::File).unwrap();
    reg.register_action(vec![Artifact::Source(0)], vec![a.as_output()], action("one"), None, None)
        .unwrap();
    assert_eq!(reg.is_artifact_bound(a), Some(true));
    assert_eq!(reg.is_artifact_bound(b), Some(false));
    assert_eq!(reg.issued_key_count(), 1);
    assert_eq!(
        reg.register_action(vec![], vec![b.as_output(), a.as_output()], action("two"), None, None)
            .unwrap_err(),
        AnalysisError::AlreadyBound
    );
    assert_eq!(reg.is_artifact_bound(b), Some(false));
    assert_eq!(reg.issued_key_count(), 1);
    reg.register_action(vec![], vec![b.as_output(), b.as_output()], action("dup"), None, None)
        .unwrap();
    assert_eq!(reg.is_artifact_bound(b), Some(true));
    assert_eq!(reg.issued_key_count(), 2);
    assert_eq!(
        reg.register_action(vec![], vec![b.as_output()], action("three"), None, None).unwrap_err(),
        AnalysisError::AlreadyBound
    );
}

#[test]
fn associated_values_fetched_after_commit() {
    let mut reg = new_registry();
    let a = reg.declare_output(None, "a", OutputType::File).unwrap();
    let b = reg.declare_output(None, "b", OutputType::File).unwrap();
    reg.register_action(
        vec![],
        vec![a.as_output()],
        action("a"),
        Some(Value { handle: 11 }),
        Some(Value { handle: 12 }),
    )
    .unwrap();
    reg.register_action(vec![], vec![b.as_output()], action("b"), None, None).unwrap();
    let mut env = Module::new();
    let committer = reg.finalize(&mut env).unwrap();
    let (frozen, deferred) = committer.commit(env).unwrap();
    assert_eq!(deferred.issued_count(), 2);
    assert!(deferred.is_bound(DeferredId { id: 0 }));
    assert!(deferred.is_bound(DeferredId { id: 1 }));
    let fetcher = AnalysisValueFetcher::new(Some(frozen));
    assert_eq!(fetcher.get(DeferredId { id: 0 }).unwrap(), Some(Value { handle: 11 }));
    assert_eq!(fetcher.get_error_handler(DeferredId { id: 0 }).unwrap(), Some(Value { handle: 12 }));
    assert_eq!(fetcher.get(DeferredId { id: 1 }).unwrap(), None);
    assert_eq!(fetcher.get_error_handler(DeferredId { id: 1 }).unwrap(), None);
    assert_eq!(fetcher.get(DeferredId { id: 7 }).unwrap(), None);
}

#[test]
fn commit_fails_on_unbound_artifact() {
    let mut reg = new_registry();
    reg.declare_output(None, "never_bound", OutputType::File).unwrap();
    let mut env = Module::new();
    let committer = reg.finalize(&mut env).unwrap();
    assert_eq!(committer.commit(env).unwrap_err(), AnalysisError::UnboundArtifact);
}

#[test]
fn commit_without_published_storage() {
    let mut reg = new_registry();
    let mut env = Module::new();
    let set = reg.create_transitive_set(Value { handle: 1 }, None, None, &mut env);
    assert_eq!(set.handle, 0);
    let mut other = Module::new();
    let committer = reg.finalize(&mut other).unwrap();
    assert_eq!(committer.commit(env).unwrap_err(), AnalysisError::StorageNotSet);
}

#[test]
fn transitive_set_recorded_and_fetched() {
    let mut reg = new_registry();
    let mut env = Module::new();
    let first = env.alloc_object(HeapObject::Opaque);
    let set = reg.create_transitive_set(first, Some(Value { handle: 5 }), None, &mut env);
    assert_eq!(set.handle, 1);
    let committer = reg.finalize(&mut env).unwrap();
    let (frozen, deferred) = committer.commit(env).unwrap();
    assert!(deferred.is_bound(DeferredId { id: 0 }));
    let fetcher = AnalysisValueFetcher::new(Some(frozen));
    let v = fetcher.get(DeferredId { id: 0 }).unwrap().unwrap();
    assert_eq!(v, set);
    let frozen = fetcher.into_module().unwrap();
    match frozen.frozen_heap().get(v) {
        Some(HeapObject::TransitiveSet(t)) => {
            assert_eq!(t.key.id(), DeferredId { id: 0 });
            assert_eq!(t.definition, first);
            assert_eq!(t.node, Some(Value { handle: 5 }));
            assert_eq!(t.children, None);
        }
        _ => panic!("expected a transitive set"),
    }
}

#[test]
fn finalize_twice_into_one_module_fails() {
    let reg = new_registry();
    let mut env = Module::new();
    assert!(!env.has_storage());
    let _committer = reg.finalize(&mut env).unwrap();
    assert!(env.has_storage());
    let again = new_registry();
    let err = again.finalize(&mut env).unwrap_err();
    assert_eq!(err, AnalysisError::StorageAlreadySet);
    assert!(err.is_internal());
    assert!(!AnalysisError::EmptyOutput.is_internal());
}

#[test]
fn write_to_module_twice_fails() {
    let mut env = Module::new();
    AnalysisValueStorage::new().write_to_module(&mut env).unwrap();
    assert_eq!(
        AnalysisValueStorage::new().write_to_module(&mut env).unwrap_err(),
        AnalysisError::StorageAlreadySet
    );
}

#[test]
fn storage_last_write_wins() {
    let mut storage = AnalysisValueStorage::new();
    storage.set_value(DeferredId { id: 3 }, Value { handle: 30 });
    storage.set_value(DeferredId { id: 3 }, Value { handle: 31 });
    storage.set_value(DeferredId { id: 4 }, Value { handle: 40 });
    storage.set_error_handler(DeferredId { id: 3 }, Value { handle: 99 });
    let frozen = storage.freeze();
    assert_eq!(frozen.get(DeferredId { id: 3 }), Some(Value { handle: 31 }));
    assert_eq!(frozen.get(DeferredId { id: 4 }), Some(Value { handle: 40 }));
    assert_eq!(frozen.get(DeferredId { id: 5 }), None);
    assert_eq!(frozen.get_error_handler(DeferredId { id: 3 }), Some(Value { handle: 99 }));
    assert_eq!(frozen.get_error_handler(DeferredId { id: 4 }), None);
}

#[test]
fn fetcher_before_freeze_and_without_storage() {
    let fetcher = AnalysisValueFetcher::new(None);
    assert_eq!(fetcher.get(DeferredId { id: 0 }).unwrap(), None);
    assert_eq!(fetcher.get_error_handler(DeferredId { id: 0 }).unwrap(), None);
    let fetcher = AnalysisValueFetcher::new(Some(Module::new().freeze()));
    assert_eq!(fetcher.get(DeferredId { id: 0 }).unwrap_err(), AnalysisError::StorageNotSet);
    assert_eq!(
        fetcher.get_error_handler(DeferredId { id: 0 }).unwrap_err(),
        AnalysisError::StorageNotSet
    );
}

#[test]
fn deferred_keys_are_sequential_per_owner() {
    let mut d = DeferredRegistry::new(BaseKey::Base(BaseDeferredKey { unit: 4 }));
    let k0 = d.reserve();
    let k1 = d.reserve();
    assert_eq!(k0.id(), DeferredId { id: 0 });
    assert_eq!(k1.id(), DeferredId { id: 1 });
    assert!(!d.is_bound(DeferredId { id: 0 }));
    d.bind(DeferredId { id: 0 });
    assert!(d.is_bound(DeferredId { id: 0 }));
    assert!(!d.is_bound(DeferredId { id: 1 }));
    let mut child = DeferredRegistry::new(BaseKey::Deferred(k1.duplicate()));
    let c0 = child.reserve();
    match c0 {
        DeferredKey::Deferred(owner, id) => {
            assert_eq!(id, DeferredId { id: 0 });
            assert_eq!(owner.id(), DeferredId { id: 1 });
        }
        DeferredKey::Base(..) => panic!("expected a key owned by a deferred computation"),
    }
}

#[test]
fn short_path_assertions_replace() {
    let mut reg = new_registry();
    let id = PromiseArtifactId { id: 8 };
    assert!(reg.short_path_assertion(id).is_none());
    reg.record_short_path_assertion(ForwardRelativePathBuf::new("a/b").unwrap(), id);
    reg.record_short_path_assertion(ForwardRelativePathBuf::new("c").unwrap(), id);
    assert_eq!(reg.short_path_assertion(id).unwrap().as_chars(), &chars("c"));
    assert!(reg.short_path_assertion(PromiseArtifactId { id: 9 }).is_none());
}

#[test]
fn unique_outputs_keep_first_occurrence() {
    let a = DeclaredArtifact { index: 2 }.as_output();
    let b = DeclaredArtifact { index: 0 }.as_output();
    assert_eq!(dynamic_analysis::artifact::unique_outputs(&vec![a, b, a, b, a]), vec![a, b]);
}

#[test]
fn action_key_and_platform() {
    let mut reg = new_registry();
    reg.set_action_key("key".to_string());
    assert_eq!(reg.execution_platform().platform, Some("linux".to_string()));
}
