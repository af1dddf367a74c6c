use vstd::prelude::*;

verus! {

/// The hue for a value against its baseline: green (120) where the value
/// is the larger of the two, red (0) where it is the smaller; a value equal
/// to its baseline takes green.
pub open spec fn hue_of(baseline: usize, value: usize) -> u32 {
    if value < baseline { 0 } else { 120 }
}

/// The hue of a value against its baseline, and the pair
/// (smaller, larger) whose ratio sets the saturation.
pub fn color_axis(baseline: usize, value: usize) -> (r: (u32, usize, usize))
    ensures
        r.0 == hue_of(baseline, value),
        r.1 as int == if baseline <= value { baseline as int } else { value as int },
        r.2 as int == if baseline <= value { value as int } else { baseline as int },
{
    if value < baseline {
        (0, value, baseline)
    } else {
        (120, baseline, value)
    }
}

} // verus!
