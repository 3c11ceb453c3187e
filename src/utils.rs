use vstd::prelude::*;

verus! {

/// What `coord_to_size` gives: zero for a negative value, else its low
/// sixteen bits.
pub open spec fn coord_to_size_spec(a: i32) -> u16 {
    if a < 0 {
        0
    } else {
        (a as int % 0x10000) as u16
    }
}

/// Converts a signed native coordinate into a size: negative values become
/// zero, others keep their low sixteen bits.
pub fn coord_to_size(a: i32) -> (r: u16)
    ensures
        r == coord_to_size_spec(a),
{
    if a < 0 {
        0
    } else {
        let r = (a as u32 % 0x10000) as u16;
        r
    }
}

} // verus!
