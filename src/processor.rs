//! The palette job for one wallpaper: where the image is and where the
//! palette's own color file goes.

use vstd::prelude::*;
use crate::text::{chars_of, string_of};

verus! {

/// One palette extraction: the wallpaper to read and the color file to write.
pub struct Processor {
    pub colorfile: String,
    pub wallpaper_path: String,
}

impl Processor {
    pub fn new(colorfile: &str, wallpaper_path: &str) -> (r: Self)
        ensures
            r.colorfile@ == colorfile@,
            r.wallpaper_path@ == wallpaper_path@,
    {
        Processor {
            colorfile: string_of(&chars_of(colorfile)),
            wallpaper_path: string_of(&chars_of(wallpaper_path)),
        }
    }
}

} // verus!
