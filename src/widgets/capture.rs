//! Screen-capture widget commands and the recording timer's text.

use vstd::prelude::*;
use crate::color::dec_digit;
use crate::text::{extend_str, lower_of, lowercase, str_eq, string_of};
use crate::widgets::{invalid_state, invalid_state_message};

verus! {

/// What to do with the capture widget's window.
#[derive(Debug, Clone, Copy, PartialEq, Eq, Structural)]
pub enum Action {
    Open,
    Close,
    Toggle,
    Load,
}

/// The window action a lower-case word names.
pub open spec fn action_named(t: Seq<char>) -> Option<Action> {
    if t == "open"@ {
        Some(Action::Open)
    } else if t == "close"@ {
        Some(Action::Close)
    } else if t == "toggle"@ {
        Some(Action::Toggle)
    } else if t == "load"@ {
        Some(Action::Load)
    } else {
        None
    }
}

impl Action {
    /// The action named by an already lower-cased word.
    pub fn from_lowercase(t: &str) -> (r: Option<Self>)
        ensures
            r == action_named(t@),
    {
        if str_eq(t, "open") {
            Some(Action::Open)
        } else if str_eq(t, "close") {
            Some(Action::Close)
        } else if str_eq(t, "toggle") {
            Some(Action::Toggle)
        } else if str_eq(t, "load") {
            Some(Action::Load)
        } else {
            None
        }
    }

    /// The action named by `s` in any case, or the error text naming `s`.
    pub fn from_str(s: &str) -> (r: Result<Self, String>)
        ensures
            match action_named(lower_of(s@)) {
                Some(a) => r == Ok::<Self, String>(a),
                None => r matches Err(e) && e@ == invalid_state(s@),
            },
    {
        let t = lowercase(s);
        match Self::from_lowercase(t.as_str()) {
            Some(a) => Ok(a),
            None => Err(invalid_state_message(s)),
        }
    }
}

/// What to capture, and in which format.
#[derive(Debug, Clone, Copy, PartialEq, Eq, Structural)]
pub enum CaptureAction {
    PhotoJPEG,
    PhotoPNG,
    VideoMP4,
    VideoMKV,
    PhotoGIF,
    RecSTOP,
}

/// The capture a lower-case word names; `_`, `-` or nothing may join its parts.
pub open spec fn capture_action_named(t: Seq<char>) -> Option<CaptureAction> {
    if t == "photo_jpeg"@ || t == "photojpeg"@ || t == "photo-jpeg"@ || t == "photo_jpg"@ || t
        == "photojpg"@ || t == "photo-jpg"@ {
        Some(CaptureAction::PhotoJPEG)
    } else if t == "photo_png"@ || t == "photopng"@ || t == "photo-png"@ {
        Some(CaptureAction::PhotoPNG)
    } else if t == "video_mp4"@ || t == "videomp4"@ || t == "video-mp4"@ {
        Some(CaptureAction::VideoMP4)
    } else if t == "video_mkv"@ || t == "videomkv"@ || t == "video-mkv"@ {
        Some(CaptureAction::VideoMKV)
    } else if t == "photo_gif"@ || t == "photogif"@ || t == "photo-gif"@ {
        Some(CaptureAction::PhotoGIF)
    } else if t == "rec_stop"@ || t == "recstop"@ || t == "rec-stop"@ {
        Some(CaptureAction::RecSTOP)
    } else {
        None
    }
}

impl CaptureAction {
    /// The capture named by an already lower-cased word.
    pub fn from_lowercase(t: &str) -> (r: Option<Self>)
        ensures
            r == capture_action_named(t@),
    {
        if str_eq(t, "photo_jpeg") || str_eq(t, "photojpeg") || str_eq(t, "photo-jpeg") || str_eq(
            t,
            "photo_jpg",
        ) || str_eq(t, "photojpg") || str_eq(t, "photo-jpg") {
            Some(CaptureAction::PhotoJPEG)
        } else if str_eq(t, "photo_png") || str_eq(t, "photopng") || str_eq(t, "photo-png") {
            Some(CaptureAction::PhotoPNG)
        } else if str_eq(t, "video_mp4") || str_eq(t, "videomp4") || str_eq(t, "video-mp4") {
            Some(CaptureAction::VideoMP4)
        } else if str_eq(t, "video_mkv") || str_eq(t, "videomkv") || str_eq(t, "video-mkv") {
            Some(CaptureAction::VideoMKV)
        } else if str_eq(t, "photo_gif") || str_eq(t, "photogif") || str_eq(t, "photo-gif") {
            Some(CaptureAction::PhotoGIF)
        } else if str_eq(t, "rec_stop") || str_eq(t, "recstop") || str_eq(t, "rec-stop") {
            Some(CaptureAction::RecSTOP)
        } else {
            None
        }
    }

    /// The capture named by `s` in any case, or the error text naming `s`.
    pub fn from_str(s: &str) -> (r: Result<Self, String>)
        ensures
            match capture_action_named(lower_of(s@)) {
                Some(a) => r == Ok::<Self, String>(a),
                None => r matches Err(e) && e@ == invalid_state(s@),
            },
    {
        let t = lowercase(s);
        match Self::from_lowercase(t.as_str()) {
            Some(a) => Ok(a),
            None => Err(invalid_state_message(s)),
        }
    }
}

/// Which part of the screen to capture.
#[derive(Debug, Clone, Copy, PartialEq, Eq, Structural)]
pub enum CaptureCanvas {
    Fullscreen,
    Slurp,
}

/// The canvas a lower-case word names.
pub open spec fn capture_canvas_named(t: Seq<char>) -> Option<CaptureCanvas> {
    if t == "fullscreen"@ {
        Some(CaptureCanvas::Fullscreen)
    } else if t == "slurp"@ || t == "region"@ {
        Some(CaptureCanvas::Slurp)
    } else {
        None
    }
}

impl CaptureCanvas {
    /// The canvas named by an already lower-cased word.
    pub fn from_lowercase(t: &str) -> (r: Option<Self>)
        ensures
            r == capture_canvas_named(t@),
    {
        if str_eq(t, "fullscreen") {
            Some(CaptureCanvas::Fullscreen)
        } else if str_eq(t, "slurp") || str_eq(t, "region") {
            Some(CaptureCanvas::Slurp)
        } else {
            None
        }
    }

    /// The canvas named by `s` in any case, or the error text naming `s`.
    pub fn from_str(s: &str) -> (r: Result<Self, String>)
        ensures
            match capture_canvas_named(lower_of(s@)) {
                Some(a) => r == Ok::<Self, String>(a),
                None => r matches Err(e) && e@ == invalid_state(s@),
            },
    {
        let t = lowercase(s);
        match Self::from_lowercase(t.as_str()) {
            Some(a) => Ok(a),
            None => Err(invalid_state_message(s)),
        }
    }
}

/// `n` in decimal, without leading zeros.
pub open spec fn decimal_nat(n: nat) -> Seq<char>
    decreases n,
{
    if n < 10 {
        seq![dec_digit(n as int)]
    } else {
        decimal_nat(n / 10).push(dec_digit((n % 10) as int))
    }
}

/// `n` in decimal, padded to at least two digits.
pub open spec fn two_digits(n: nat) -> Seq<char> {
    if n < 10 {
        seq!['0', dec_digit(n as int)]
    } else {
        decimal_nat(n)
    }
}

/// A duration as `[Dd:][HHh:][MMm:]SSs`: days when there are any, and hours
/// and minutes once a larger unit or they themselves are non-zero.
pub open spec fn elapsed_text(total: nat) -> Seq<char> {
    let d = total / 86400;
    let h = (total % 86400) / 3600;
    let m = (total % 3600) / 60;
    let s = total % 60;
    (if d > 0 {
        decimal_nat(d) + "d:"@
    } else {
        Seq::empty()
    }) + (if h > 0 || d > 0 {
        two_digits(h) + "h:"@
    } else {
        Seq::empty()
    }) + (if m > 0 || h > 0 || d > 0 {
        two_digits(m) + "m:"@
    } else {
        Seq::empty()
    }) + two_digits(s) + "s"@
}

fn push_decimal_u64(out: &mut Vec<char>, n: u64)
    ensures
        final(out)@ == old(out)@ + decimal_nat(n as nat),
    decreases n,
{
    if n >= 10 {
        push_decimal_u64(out, n / 10);
    }
    let d = (n % 10) as u8;
    out.push((48u8 + d) as char);
    assert(out@ =~= old(out)@ + decimal_nat(n as nat));
}

fn push_two_digits(out: &mut Vec<char>, n: u64)
    ensures
        final(out)@ == old(out)@ + two_digits(n as nat),
{
    if n < 10 {
        out.push('0');
        out.push((48u8 + n as u8) as char);
        assert(out@ =~= old(out)@ + two_digits(n as nat));
    } else {
        push_decimal_u64(out, n);
    }
}

/// Formats a recording's elapsed seconds, e.g. `01h:02m:03s`.
pub fn format_time(total_seconds: u64) -> (r: String)
    ensures
        r@ == elapsed_text(total_seconds as nat),
{
    let days = total_seconds / 86400;
    let hours = (total_seconds % 86400) / 3600;
    let minutes = (total_seconds % 3600) / 60;
    let seconds = total_seconds % 60;
    let mut out: Vec<char> = Vec::new();
    if days > 0 {
        push_decimal_u64(&mut out, days);
        extend_str(&mut out, "d:");
    }
    if hours > 0 || days > 0 {
        push_two_digits(&mut out, hours);
        extend_str(&mut out, "h:");
    }
    if minutes > 0 || hours > 0 || days > 0 {
        push_two_digits(&mut out, minutes);
        extend_str(&mut out, "m:");
    }
    push_two_digits(&mut out, seconds);
    extend_str(&mut out, "s");
    assert(out@ =~= elapsed_text(total_seconds as nat));
    string_of(&out)
}

} // verus!
