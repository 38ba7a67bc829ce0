//! Analysis-time registry for deferred computations: identities, value
//! storage with a one-shot freeze, artifact declaration and the
//! dynamic-output registration protocol.

pub mod value_map;
pub mod deferred;
pub mod error;
pub mod path;
pub mod artifact;
pub mod storage;
pub mod artifact_groups;
pub mod dynamic;
pub mod dynamic_output;
pub mod registry;
pub mod laws;
