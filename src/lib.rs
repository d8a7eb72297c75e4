//! Resolution of shimmed commands to the installed version of the tool that
//! owns them: the shim database, the version cascade over `.tool-versions`
//! records, per-tool plugin configuration and the computation of the
//! executable path and environment of a launch.
//!
//! Everything here works on plain values. Reading directories, files and the
//! process environment, and launching processes, is left to the caller, which
//! hands the library what it read.

pub mod codec;
pub mod common;
pub mod error;
pub mod executable_context;
pub mod fs_path;
pub mod lookup;
pub mod plugin;
pub mod record_file;
pub mod plugin_manager;
pub mod runtime;
pub mod shims;
pub mod shims_db;
pub mod text;
pub mod tool_versions;
