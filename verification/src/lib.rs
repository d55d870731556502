//! Request-construction layer for an "add dependency" manifest operation.
//!
//! Turns user-supplied tokens (crate identifiers, feature-attachment tokens)
//! and option switches into a validated, ordered list of dependency-addition
//! requests for a downstream manifest editor.

pub mod deps;
pub mod errors;
pub mod feature_set;
pub mod features;
pub mod options;
pub mod section;

pub use deps::{parse_dependencies, DepOp};
pub use errors::{select_package_index, AddError};
pub use features::parse_feature;
pub use options::resolve_bool_arg;
pub use section::{parse_section, DepKind, DepTable};
