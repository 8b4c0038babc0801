//! Checks the packages pinned in a Python requirements file against the
//! releases that PyPI publishes, and reports which of them have newer
//! versions.
//!
//! The library holds the decisions: how a configuration is assembled from
//! defaults, a configuration file, the environment and the command line; how
//! a requirements file becomes a list of pinned packages; which published
//! release counts as the newest one; how failed requests are retried; and how
//! results and errors are rendered as text.

pub mod text;
pub mod error;
pub mod config;
pub mod version;
pub mod checker;
pub mod reqfile;
