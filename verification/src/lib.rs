//! The parts of a monorepo build tool that work on plain values.
//!
//! The heart of the crate is its path algebra: normalized,
//! platform-agnostic, forward-pointing relative paths. A path is kept as
//! its canonical string: valid file names joined by `/`, the empty string
//! standing for the path with no components. Every value of the path types
//! carries that invariant, so two equal logical paths are always the same
//! string, and the string can serve as a stable cache key.
//!
//! Beside it stand the decisions of the tool's collaborators that need no
//! input or output: of the API client, of the styling of output, and of the
//! workspace lookup.

pub mod api_client;
pub mod error;
pub mod file_name;
pub mod host_path;
pub mod laws;
pub mod package_manager;
pub mod path_model;
pub mod project_relative_path;
pub mod relative;
pub mod relative_forward_unix_path;
pub mod text;
pub mod ui;
