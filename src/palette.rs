//! Fixed points of palette extraction that need no floating point: the hue
//! histogram's circular indexing and the neutral palette of a gray image.

use vstd::prelude::*;

verus! {

/// Buckets of the hue histogram, five degrees each.
pub const HUE_BINS: usize = 72;

/// Primary color of an image without usable hue.
pub const NEUTRAL_PRIMARY: &'static str = "#141414";

/// Secondary color of an image without usable hue.
pub const NEUTRAL_SECONDARY: &'static str = "#E5E5E5";

/// A histogram index taken around the circle of `HUE_BINS` buckets, so that
/// the neighbours of the first and last buckets wrap.
pub fn wrap_bin(i: isize) -> (r: usize)
    ensures
        r < HUE_BINS,
        r as int == (i as int) % (HUE_BINS as int),
{
    let n: isize = 72;
    let k = i % n;
    if k < 0 {
        (k + n) as usize
    } else {
        k as usize
    }
}

} // verus!
