//! Reads the directory lists that a service supervisor advertises to a unit
//! (runtime, state, cache, logs and configuration directories) from an
//! environment table, either live or as an immutable snapshot.
pub mod environment;
pub mod paths;
pub mod standalone;
pub mod systemd_dirs;

pub use environment::Environment;
pub use paths::ColonSeparatedPaths;
pub use standalone::{
    cache_dir, cache_dirs, config_dir, config_dirs, list_for, logs_dir, logs_dirs, primary_for,
    runtime_dir, runtime_dirs, state_dir, state_dirs, Category,
};
pub use systemd_dirs::SystemdDirs;
