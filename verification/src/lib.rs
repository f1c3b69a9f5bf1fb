//! Toolbox resolution, environment composition and batch orchestration for
//! agent sessions, with machine-checked contracts.

pub mod amp_auth;
pub mod batch_commands;
pub mod batch_engine;
pub mod domain;
pub mod env_composer;
pub mod env_map;
pub mod error;
pub mod exporters;
pub mod keychain_auth;
pub mod legacy_node;
pub mod modern;
pub mod paths;
pub mod runtime_env;
pub mod text;
pub mod toolbox_laws;
pub mod toolbox_profiles;
pub mod toolbox_resolver;
pub mod worktree;
