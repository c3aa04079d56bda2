//! A marker for the existential statements of this crate.

use vstd::prelude::*;

verus! {

/// Marks `t` as the intermediate result that a relation speaks of. It holds
/// of everything: a proof names its witness by asserting it.
pub open spec fn witness<T>(t: T) -> bool {
    true
}

} // verus!
