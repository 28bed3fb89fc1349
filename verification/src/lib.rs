//! Derives a compiler-invocation database from a layered configuration:
//! workspace-wide and per-folder settings are merged, glob patterns are
//! expanded against the filesystem, excluded and duplicate paths are removed,
//! and one compile entry (directory, argument vector, file) is produced per
//! retained source file.

pub mod arguments;
pub mod config;
pub mod entries;
pub mod paths;
pub mod resolve;
pub mod settings;

pub use settings::FolderSettings;
pub use settings::WorkspaceSettings;
