//! Package-store and runtime binding library for Faber.

use vstd::prelude::*;

pub mod cache;
pub mod cli;
pub mod diagnostics;
pub mod package;
pub mod resolver;
pub mod runtime;
pub mod target;
pub mod text;
pub mod uri;
pub mod commands;
pub mod credentials;
pub mod faber_lock;
pub mod hygiene;
pub mod manifest;
pub mod ordering;
pub mod paths;
pub mod project_manifest;
pub mod registry_http;
pub mod store;
