//! Branch hints.

use vstd::prelude::*;

verus! {

/// `likely_stable::likely` tells the compiler which way a test mostly goes.
/// It hands its argument back.
pub assume_specification[ likely_stable::likely ](b: bool) -> (r: bool)
    ensures
        r == b,
;

} // verus!
