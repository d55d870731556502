//! The validation errors an invocation can end with. Every one is terminal:
//! either a complete, valid request set is produced, or exactly one of these
//! is surfaced to the caller.

use vstd::prelude::*;

verus! {

/// Why an invocation was rejected.
#[derive(Clone, Copy, Debug, PartialEq, Eq, Structural)]
pub enum AddError {
    /// No target package was selected.
    NoPackageSelected,
    /// More than one target package was selected; the count says how many.
    MultiplePackagesSelected { count: usize },
    /// More than one crate token combined with a git source.
    MultipleCratesWithGit,
    /// More than one crate token combined with a rename.
    MultipleCratesWithRename,
    /// More than one crate token combined with a shared feature list.
    MultipleCratesWithFeatures,
    /// A git source without the unstable-options capability.
    GitUnstable,
    /// A feature-attachment token without the unstable-options capability.
    FeatureSyntaxUnstable,
    /// A feature-attachment token with no preceding crate token.
    FeatureWithoutCrate,
    /// An explicitly supplied empty target-platform string.
    EmptyTarget,
}

impl AddError {
    /// A human-readable description of the violated constraint.
    pub fn message(&self) -> (r: String)
        ensures
            self is NoPackageSelected ==> r@ == "no packages selected.  Please specify one with `-p <PKGID>`"@,
            self is MultiplePackagesSelected ==> r@ == "multiple packages selected.  Please specify one with `-p <PKGID>`"@,
            self is MultipleCratesWithGit ==> r@ == "cannot specify multiple crates with path or git or vers"@,
            self is MultipleCratesWithRename ==> r@ == "cannot specify multiple crates with rename"@,
            self is MultipleCratesWithFeatures ==> r@ == "cannot specify multiple crates with features"@,
            self is GitUnstable ==> r@ == "`--git` is unstable and requires `-Z unstable-options`"@,
            self is FeatureSyntaxUnstable ==> r@ == "`+<feature>` is unstable and requires `-Z unstable-options`"@,
            self is FeatureWithoutCrate ==> r@ == "`+<feature>` must be preceded by a pkgid"@,
            self is EmptyTarget ==> r@ == "target specification may not be empty"@,
    {
        match self {
            AddError::NoPackageSelected => "no packages selected.  Please specify one with `-p <PKGID>`".to_owned(),
            AddError::MultiplePackagesSelected { .. } => "multiple packages selected.  Please specify one with `-p <PKGID>`".to_owned(),
            AddError::MultipleCratesWithGit => "cannot specify multiple crates with path or git or vers".to_owned(),
            AddError::MultipleCratesWithRename => "cannot specify multiple crates with rename".to_owned(),
            AddError::MultipleCratesWithFeatures => "cannot specify multiple crates with features".to_owned(),
            AddError::GitUnstable => "`--git` is unstable and requires `-Z unstable-options`".to_owned(),
            AddError::FeatureSyntaxUnstable => "`+<feature>` is unstable and requires `-Z unstable-options`".to_owned(),
            AddError::FeatureWithoutCrate => "`+<feature>` must be preceded by a pkgid".to_owned(),
            AddError::EmptyTarget => "target specification may not be empty".to_owned(),
        }
    }
}

/// Pick the single selected package out of `count` candidates: the lone
/// candidate's index when there is exactly one, a selection error otherwise.
pub fn select_package_index(count: usize) -> (r: Result<usize, AddError>)
    ensures
        count == 0 ==> r == Err::<usize, AddError>(AddError::NoPackageSelected),
        count == 1 ==> r == Ok::<usize, AddError>(0usize),
        count > 1 ==> r == Err::<usize, AddError>(
            AddError::MultiplePackagesSelected { count },
        ),
{
    if count == 0 {
        Err(AddError::NoPackageSelected)
    } else if count == 1 {
        Ok(0)
    } else {
        Err(AddError::MultiplePackagesSelected { count })
    }
}

} // verus!
