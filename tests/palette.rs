use color_listener::color::hex_to_rgb;
use color_listener::palette::{wrap_bin, HUE_BINS, NEUTRAL_PRIMARY, NEUTRAL_SECONDARY};

#[test]
fn bins_wrap_around_the_circle() {
    assert_eq!(HUE_BINS, 72);
    assert_eq!(wrap_bin(-1), 71);
    assert_eq!(wrap_bin(0), 0);
    assert_eq!(wrap_bin(71), 71);
    assert_eq!(wrap_bin(72), 0);
    assert_eq!(wrap_bin(73), 1);
    assert_eq!(wrap_bin(-73), 71);
}

#[test]
fn neutral_pair_is_near_black_and_light_gray() {
    assert_eq!(NEUTRAL_PRIMARY, "#141414");
    assert_eq!(NEUTRAL_SECONDARY, "#E5E5E5");
    assert_eq!(hex_to_rgb(NEUTRAL_PRIMARY), Some((0x14, 0x14, 0x14)));
    assert_eq!(hex_to_rgb(NEUTRAL_SECONDARY), Some((0xE5, 0xE5, 0xE5)));
}
