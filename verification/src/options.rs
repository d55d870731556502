//! Collapsing a pair of mutually exclusive boolean switches into a tri-state
//! option value.

use vstd::prelude::*;

verus! {

/// Reduce an "explicitly enable" / "explicitly disable" switch pair to a
/// single tri-state value: `Some(true)` when only enable is set, `Some(false)`
/// when only disable is set, `None` when neither is set.
///
/// The option-collection layer declares the two switches mutually exclusive,
/// so both being set is ruled out here by precondition.
pub fn resolve_bool_arg(yes: bool, no: bool) -> (r: Option<bool>)
    requires
        !(yes && no),
    ensures
        r == (if yes {
            Some(true)
        } else if no {
            Some(false)
        } else {
            None::<bool>
        }),
{
    match (yes, no) {
        (true, false) => Some(true),
        (false, true) => Some(false),
        (false, false) => None,
        (true, true) => None,
    }
}

} // verus!
