//! Small helpers on single values.

use crate::scalar::Scalar;
use vstd::prelude::*;

verus! {

/// What `clamp` returns.
pub open spec fn clamped(value: Scalar, min: Scalar, max: Scalar) -> Scalar {
    if value.spec_lt(min) {
        min
    } else if value.spec_gt(max) {
        max
    } else {
        value
    }
}

/// Restricts `value` to the interval from `min` to `max`: a value below `min`
/// becomes `min`, one above `max` becomes `max`, any other is returned as it
/// is (so is one that is not a number).
pub fn clamp(value: Scalar, min: Scalar, max: Scalar) -> (r: Scalar)
    ensures
        r == clamped(value, min, max),
{
    if value.lt(min) {
        return min;
    }
    if value.gt(max) {
        return max;
    }
    value
}

/// A clamped number lies inside the interval it was clamped to, and clamping
/// a value that already lies inside changes nothing.
pub proof fn lemma_clamp_within(value: Scalar, min: Scalar, max: Scalar)
    requires
        !value.nan(),
        min.spec_le(max),
    ensures
        min.spec_le(clamped(value, min, max)),
        clamped(value, min, max).spec_le(max),
        min.spec_le(value) && value.spec_le(max) ==> clamped(value, min, max) == value,
{
}

} // verus!
