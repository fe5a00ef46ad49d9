//! Tags for host data types that guest code can hold.

use vstd::prelude::*;

verus! {

/// Takes the next tag from `count`: the tag is the count as it stood, and the
/// count moves on by one, from 255 back to 0.
pub fn new_tag(count: &mut u8) -> (tag: u8)
    ensures
        tag == *old(count),
        *final(count) == (if *old(count) == 255 { 0 } else { *old(count) + 1 }),
{
    let tag = *count;
    *count = if tag == 255 { 0 } else { tag + 1 };
    tag
}

} // verus!
