//! Audio widget commands.

use vstd::prelude::*;
use crate::text::{lower_of, lowercase, str_eq};
use crate::widgets::{invalid_state, invalid_state_message};

verus! {

/// A change of the output volume.
#[derive(Debug, Clone, Copy, PartialEq, Eq, Structural)]
pub enum VolumeAction {
    VolUp,
    VolDown,
    VolMute,
    VolUnmute,
    VolMuteToggle,
}

/// The volume action a lower-case word names.
pub open spec fn volume_action_named(t: Seq<char>) -> Option<VolumeAction> {
    if t == "volup"@ || t == "vol-up"@ {
        Some(VolumeAction::VolUp)
    } else if t == "voldown"@ || t == "vol-down"@ {
        Some(VolumeAction::VolDown)
    } else if t == "volmute"@ || t == "vol-mute"@ {
        Some(VolumeAction::VolMute)
    } else if t == "volunmute"@ || t == "vol-unmute"@ {
        Some(VolumeAction::VolUnmute)
    } else if t == "volmutetoggle"@ || t == "vol-mutetoggle"@ || t == "vol-mute-toggle"@ {
        Some(VolumeAction::VolMuteToggle)
    } else {
        None
    }
}

impl VolumeAction {
    /// The action named by an already lower-cased word.
    pub fn from_lowercase(t: &str) -> (r: Option<Self>)
        ensures
            r == volume_action_named(t@),
    {
        if str_eq(t, "volup") || str_eq(t, "vol-up") {
            Some(VolumeAction::VolUp)
        } else if str_eq(t, "voldown") || str_eq(t, "vol-down") {
            Some(VolumeAction::VolDown)
        } else if str_eq(t, "volmute") || str_eq(t, "vol-mute") {
            Some(VolumeAction::VolMute)
        } else if str_eq(t, "volunmute") || str_eq(t, "vol-unmute") {
            Some(VolumeAction::VolUnmute)
        } else if str_eq(t, "volmutetoggle") || str_eq(t, "vol-mutetoggle") || str_eq(
            t,
            "vol-mute-toggle",
        ) {
            Some(VolumeAction::VolMuteToggle)
        } else {
            None
        }
    }

    /// The action named by `s` in any case, or the error text naming `s`.
    pub fn from_str(s: &str) -> (r: Result<Self, String>)
        ensures
            match volume_action_named(lower_of(s@)) {
                Some(a) => r == Ok::<Self, String>(a),
                None => r matches Err(e) && e@ == invalid_state(s@),
            },
    {
        let t = lowercase(s);
        match Self::from_lowercase(t.as_str()) {
            Some(a) => Ok(a),
            None => Err(invalid_state_message(s)),
        }
    }
}

/// What to do with the audio widget's window.
#[derive(Debug, Clone, Copy, PartialEq, Eq, Structural)]
pub enum Action {
    Open,
    Close,
    Toggle,
    AutoToggle,
    Load,
}

/// The window action a lower-case word names.
pub open spec fn action_named(t: Seq<char>) -> Option<Action> {
    if t == "open"@ {
        Some(Action::Open)
    } else if t == "close"@ {
        Some(Action::Close)
    } else if t == "toggle"@ {
        Some(Action::Toggle)
    } else if t == "autotoggle"@ || t == "auto-toggle"@ {
        Some(Action::AutoToggle)
    } else if t == "load"@ {
        Some(Action::Load)
    } else {
        None
    }
}

impl Action {
    /// The action named by an already lower-cased word.
    pub fn from_lowercase(t: &str) -> (r: Option<Self>)
        ensures
            r == action_named(t@),
    {
        if str_eq(t, "open") {
            Some(Action::Open)
        } else if str_eq(t, "close") {
            Some(Action::Close)
        } else if str_eq(t, "toggle") {
            Some(Action::Toggle)
        } else if str_eq(t, "autotoggle") || str_eq(t, "auto-toggle") {
            Some(Action::AutoToggle)
        } else if str_eq(t, "load") {
            Some(Action::Load)
        } else {
            None
        }
    }

    /// The action named by `s` in any case, or the error text naming `s`.
    pub fn from_str(s: &str) -> (r: Result<Self, String>)
        ensures
            match action_named(lower_of(s@)) {
                Some(a) => r == Ok::<Self, String>(a),
                None => r matches Err(e) && e@ == invalid_state(s@),
            },
    {
        let t = lowercase(s);
        match Self::from_lowercase(t.as_str()) {
            Some(a) => Ok(a),
            None => Err(invalid_state_message(s)),
        }
    }
}

} // verus!
