//! File-level read/write path, conflict detection and workspace browsing for a
//! local markdown note-taking application.
//!
//! The library holds the decisions; the file system is observed by the caller
//! and handed in as plain values (see `observe`). Paths are text whose
//! segments are separated by `/`.
//!
//! - `text`, `path`, `containment`: strings, the segments of paths, and the
//!   laws of joining and containment.
//! - `version`: the version token of a file.
//! - `document`: opening and saving, with the check for conflicts.
//! - `writer`: replacing a file through a temporary file and a rename.
//! - `workspace`, `listing`: the root of a workspace, the paths below it, and
//!   the listing of a directory.
//! - `watch`: watches and their registry.
//! - `config`, `export`: the configuration of the application, and exports.
//! - `model`, `error`: the values handed back, and the errors.

pub mod config;
pub mod containment;
pub mod document;
pub mod error;
pub mod export;
pub mod listing;
pub mod model;
pub mod observe;
pub mod path;
pub mod text;
pub mod version;
pub mod watch;
pub mod workspace;
pub mod writer;
