use color_listener::widgets::audio::{self, VolumeAction};
use color_listener::widgets::brightness::BrightnessAction;
use color_listener::widgets::capture::{self, format_time, CaptureAction, CaptureCanvas};

#[test]
fn volume_words() {
    assert_eq!(VolumeAction::from_str("Vol-Up"), Ok(VolumeAction::VolUp));
    assert_eq!(VolumeAction::from_str("voldown"), Ok(VolumeAction::VolDown));
    assert_eq!(VolumeAction::from_str("VOL-MUTE"), Ok(VolumeAction::VolMute));
    assert_eq!(VolumeAction::from_str("volunmute"), Ok(VolumeAction::VolUnmute));
    assert_eq!(VolumeAction::from_str("vol-mute-toggle"), Ok(VolumeAction::VolMuteToggle));
    assert_eq!(VolumeAction::from_str("nope"), Err("Invalid widget state: nope".to_string()));
}

#[test]
fn audio_window_words() {
    assert_eq!(audio::Action::from_str("Auto-Toggle"), Ok(audio::Action::AutoToggle));
    assert_eq!(audio::Action::from_str("LOAD"), Ok(audio::Action::Load));
    assert_eq!(audio::Action::from_str("Shut"), Err("Invalid widget state: Shut".to_string()));
}

#[test]
fn brightness_words() {
    assert_eq!(BrightnessAction::from_str("Brightness-Up"), Ok(BrightnessAction::BrightnessUp));
    assert_eq!(BrightnessAction::from_str("brightnessdown"), Ok(BrightnessAction::BrightnessDown));
    assert!(BrightnessAction::from_str("dim").is_err());
}

#[test]
fn capture_words() {
    assert_eq!(capture::Action::from_str("Toggle"), Ok(capture::Action::Toggle));
    assert!(capture::Action::from_str("autotoggle").is_err());
    assert_eq!(CaptureAction::from_str("Photo-JPG"), Ok(CaptureAction::PhotoJPEG));
    assert_eq!(CaptureAction::from_str("video_mkv"), Ok(CaptureAction::VideoMKV));
    assert_eq!(CaptureAction::from_str("RECSTOP"), Ok(CaptureAction::RecSTOP));
    assert_eq!(CaptureCanvas::from_str("Region"), Ok(CaptureCanvas::Slurp));
    assert_eq!(CaptureCanvas::from_str("fullscreen"), Ok(CaptureCanvas::Fullscreen));
    assert_eq!(
        CaptureCanvas::from_str("window"),
        Err("Invalid widget state: window".to_string())
    );
}

#[test]
fn elapsed_time_text() {
    assert_eq!(format_time(0), "00s");
    assert_eq!(format_time(3), "03s");
    assert_eq!(format_time(59), "59s");
    assert_eq!(format_time(61), "01m:01s");
    assert_eq!(format_time(3600), "01h:00m:00s");
    assert_eq!(format_time(86400), "1d:00h:00m:00s");
    assert_eq!(format_time(90061), "1d:01h:01m:01s");
    assert_eq!(format_time(12 * 86400 + 23 * 3600 + 59 * 60 + 59), "12d:23h:59m:59s");
}
