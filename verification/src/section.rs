//! The dependency section an invocation writes to: its kind
//! (normal / development / build) and an optional target-platform scope.

use crate::errors::AddError;
use vstd::prelude::*;

verus! {

/// The classification of a dependency section.
#[derive(Clone, Copy, Debug, PartialEq, Eq, Structural)]
pub enum DepKind {
    Normal,
    Development,
    Build,
}

/// The section all requests of one invocation are written to: a kind and an
/// optional platform-target scope.
#[derive(Debug)]
pub struct DepTable {
    pub kind: DepKind,
    pub target: Option<String>,
}

impl DepTable {
    /// A well-formed section never scopes to an empty target string.
    pub open spec fn wf(&self) -> bool {
        match self.target {
            Some(t) => t@.len() > 0,
            None => true,
        }
    }
}

/// The section kind selected by the two mutually exclusive presence flags:
/// development wins, then build, and normal is the default.
pub open spec fn kind_of_flags(dev: bool, build: bool) -> DepKind {
    if dev {
        DepKind::Development
    } else if build {
        DepKind::Build
    } else {
        DepKind::Normal
    }
}

/// Determine the section for an invocation from the presence flags and the
/// optional target-platform string. An explicitly supplied empty target
/// string is rejected.
pub fn parse_section(dev: bool, build: bool, target: Option<String>) -> (r: Result<
    DepTable,
    AddError,
>)
    ensures
        match r {
            Ok(table) => {
                &&& table.kind == kind_of_flags(dev, build)
                &&& table.target == target
                &&& table.wf()
                &&& match target {
                    Some(t) => t@.len() > 0,
                    None => true,
                }
            },
            Err(e) => {
                &&& e == AddError::EmptyTarget
                &&& match target {
                    Some(t) => t@.len() == 0,
                    None => false,
                }
            },
        },
{
    let kind = if dev {
        DepKind::Development
    } else if build {
        DepKind::Build
    } else {
        DepKind::Normal
    };
    if let Some(t) = &target {
        if t.as_str().is_empty() {
            return Err(AddError::EmptyTarget);
        }
    }
    Ok(DepTable { kind, target })
}

} // verus!
