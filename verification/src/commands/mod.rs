//! Package-command logic: manifest validation, install planning, registry
//! identities, package inspection, and staged directory replacement.

pub mod shared;
pub mod package;
pub mod rust_target;
pub mod run;
pub mod registry;
pub mod fs_util;
pub mod install;
