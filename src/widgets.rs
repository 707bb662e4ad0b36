//! Command words understood by the desktop-bar widgets, and the recording
//! timer's text.

pub mod audio;
pub mod brightness;
pub mod capture;

use vstd::prelude::*;
use crate::text::{extend_str, string_of};

verus! {

/// The error text for a word that names no widget command.
pub open spec fn invalid_state(s: Seq<char>) -> Seq<char> {
    "Invalid widget state: "@ + s
}

pub fn invalid_state_message(s: &str) -> (r: String)
    ensures
        r@ == invalid_state(s@),
{
    let mut out: Vec<char> = Vec::new();
    extend_str(&mut out, "Invalid widget state: ");
    extend_str(&mut out, s);
    string_of(&out)
}

} // verus!
