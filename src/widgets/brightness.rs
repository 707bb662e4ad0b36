//! Brightness widget commands.

use vstd::prelude::*;
use crate::text::{lower_of, lowercase, str_eq};
use crate::widgets::{invalid_state, invalid_state_message};

verus! {

/// A change of the screen brightness.
#[derive(Debug, Clone, Copy, PartialEq, Eq, Structural)]
pub enum BrightnessAction {
    BrightnessUp,
    BrightnessDown,
}

/// The brightness action a lower-case word names.
pub open spec fn brightness_action_named(t: Seq<char>) -> Option<BrightnessAction> {
    if t == "brightnessup"@ || t == "brightness-up"@ {
        Some(BrightnessAction::BrightnessUp)
    } else if t == "brightnessdown"@ || t == "brightness-down"@ {
        Some(BrightnessAction::BrightnessDown)
    } else {
        None
    }
}

impl BrightnessAction {
    /// The action named by an already lower-cased word.
    pub fn from_lowercase(t: &str) -> (r: Option<Self>)
        ensures
            r == brightness_action_named(t@),
    {
        if str_eq(t, "brightnessup") || str_eq(t, "brightness-up") {
            Some(BrightnessAction::BrightnessUp)
        } else if str_eq(t, "brightnessdown") || str_eq(t, "brightness-down") {
            Some(BrightnessAction::BrightnessDown)
        } else {
            None
        }
    }

    /// The action named by `s` in any case, or the error text naming `s`.
    pub fn from_str(s: &str) -> (r: Result<Self, String>)
        ensures
            match brightness_action_named(lower_of(s@)) {
                Some(a) => r == Ok::<Self, String>(a),
                None => r matches Err(e) && e@ == invalid_state(s@),
            },
    {
        let t = lowercase(s);
        match Self::from_lowercase(t.as_str()) {
            Some(a) => Ok(a),
            None => Err(invalid_state_message(s)),
        }
    }
}

} // verus!
