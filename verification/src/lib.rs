//! Core engine of a Windows package manager for software published as GitHub
//! release assets: asset classification and ranking, version-token matching,
//! the three installation strategies (standalone executable, zip archive,
//! third-party installer), and the before/after state diffing used to infer an
//! opaque installer's side effects.
//!
//! All OS interaction (network, filesystem, registry, process spawning) lives
//! outside this crate; the functions here work on plain values such as
//! snapshots of registry subkey names, listings of folders, and modelled file
//! trees, so every decision the engine makes is stated and checked here.

pub mod database;
pub mod dist;
pub mod env_vars;
pub mod errors;
pub mod fs_model;
pub mod github;
pub mod lifecycle;
pub mod package;
pub mod senget;
pub mod snapshot;
pub mod table;
pub mod text;
pub mod version;
