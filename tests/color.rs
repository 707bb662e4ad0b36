use color_listener::color::{
    clamp_max_channel, darken_hex, hex_to_rgb, hex_to_rgba_packed, is_hex_rgb, to_hex,
};

#[test]
fn parses_mixed_case_hex() {
    assert_eq!(hex_to_rgb("#1A2b3C"), Some((26, 43, 60)));
    assert_eq!(hex_to_rgb("#000000"), Some((0, 0, 0)));
    assert_eq!(hex_to_rgb("#ffFFff"), Some((255, 255, 255)));
}

#[test]
fn rejects_malformed_hex() {
    assert_eq!(hex_to_rgb("1A2B3C"), None);
    assert_eq!(hex_to_rgb("#1A2B3"), None);
    assert_eq!(hex_to_rgb("#1A2B3C4"), None);
    assert_eq!(hex_to_rgb("#GG0000"), None);
    assert_eq!(hex_to_rgb("#+10000"), None);
    assert_eq!(hex_to_rgb(""), None);
    assert_eq!(hex_to_rgb("#ééé"), None);
}

#[test]
fn renders_upper_case_hex() {
    assert_eq!(to_hex(26, 43, 60), "#1A2B3C");
    assert_eq!(to_hex(0, 0, 0), "#000000");
    assert_eq!(to_hex(255, 255, 255), "#FFFFFF");
    assert_eq!(to_hex(0x14, 0x14, 0x14), "#141414");
}

#[test]
fn hex_round_trip_keeps_channels() {
    for (r, g, b) in [(0u8, 0u8, 0u8), (1, 2, 3), (250, 128, 7), (255, 255, 255)] {
        assert_eq!(hex_to_rgb(&to_hex(r, g, b)), Some((r, g, b)));
    }
    assert_eq!(to_hex(0xab, 0xcd, 0xef), "#ABCDEF");
}

#[test]
fn hex_check_requires_hash() {
    assert!(is_hex_rgb("#abcdef"));
    assert!(is_hex_rgb("#ABCDEF"));
    assert!(!is_hex_rgb("abcdef"));
    assert!(!is_hex_rgb("FFFFFF"));
    assert!(!is_hex_rgb("#+FFFFF"));
    assert!(!is_hex_rgb("#abcde"));
    assert!(!is_hex_rgb("##abcdef"));
    assert!(!is_hex_rgb("#abcdeg"));
    assert!(!is_hex_rgb(""));
}

#[test]
fn packs_rgba_lower_case() {
    assert_eq!(hex_to_rgba_packed("#FF8000", 0xAA), "ff8000aa");
    assert_eq!(hex_to_rgba_packed("#aabbcc", 0xFF), "aabbccff");
    assert_eq!(hex_to_rgba_packed("bad", 0xFF), "000000ff");
    assert_eq!(hex_to_rgba_packed("#12345", 0x00), "00000000");
}

#[test]
fn darkens_by_percent_with_rounding() {
    assert_eq!(darken_hex("#646464", 15), "#555555");
    assert_eq!(darken_hex("#0A0A0A", 15), "#090909");
    assert_eq!(darken_hex("#FFFFFF", 15), "#D9D9D9");
    assert_eq!(darken_hex("#112233", 15), "#0E1D2B");
    assert_eq!(darken_hex("#112233", 0), "#112233");
    assert_eq!(darken_hex("112233", 15), "112233");
    assert_eq!(darken_hex("#112233", 100), "#000000");
    assert_eq!(darken_hex("xyz", 15), "xyz");
}

#[test]
fn caps_the_largest_channel() {
    assert_eq!(clamp_max_channel(68, 34, 0), (34, 17, 0));
    assert_eq!(clamp_max_channel(200, 100, 3), (34, 17, 1));
    assert_eq!(clamp_max_channel(255, 255, 255), (34, 34, 34));
    assert_eq!(clamp_max_channel(20, 10, 5), (20, 10, 5));
    assert_eq!(clamp_max_channel(34, 34, 34), (34, 34, 34));
    assert_eq!(clamp_max_channel(0, 35, 0), (0, 34, 0));
}

#[test]
fn capped_channels_never_exceed_limit() {
    for r in (0u16..=255).step_by(17) {
        for g in (0u16..=255).step_by(15) {
            for b in [0u16, 1, 34, 35, 128, 255] {
                let (x, y, z) = clamp_max_channel(r as u8, g as u8, b as u8);
                let m = x.max(y).max(z);
                assert!(m <= 0x22);
                if r.max(g).max(b) > 0x22 {
                    assert_eq!(m, 0x22);
                }
            }
        }
    }
}
