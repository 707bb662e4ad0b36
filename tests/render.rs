use color_listener::render::{
    ags_contents, colors_file_contents, hyprland_contents, render_theme, set_var,
};

#[test]
fn colors_file_uses_rgba() {
    assert_eq!(
        colors_file_contents("#141414", "#E5E5E5"),
        "$primary-color: rgba(20,20,20,1.0);\n$secondary-color: rgba(229,229,229,1.0);\n"
    );
}

#[test]
fn colors_file_keeps_malformed_color() {
    assert_eq!(
        colors_file_contents("bad", "#000000"),
        "$primary-color: bad;\n$secondary-color: rgba(0,0,0,1.0);\n"
    );
}

#[test]
fn ags_file_has_three_variables() {
    assert_eq!(
        ags_contents("#141414", "#E5E5E5"),
        "$primary-color: #141414;\n$primary-color-transparent: rgba(20,20,20,0.80);\n$secondary-color: #E5E5E5;\n"
    );
}

#[test]
fn ags_file_falls_back_to_transparent_black() {
    assert_eq!(
        ags_contents("oops", "#E5E5E5"),
        "$primary-color: oops;\n$primary-color-transparent: rgba(0,0,0,0.80);\n$secondary-color: #E5E5E5;\n"
    );
}

#[test]
fn set_var_replaces_matching_lines_only() {
    assert_eq!(
        set_var("a = 1\n  $x = old\nb\n", "$x", "new"),
        "a = 1\n$x = new\nb\n"
    );
    assert_eq!(set_var("a\r\nb", "$x", "new"), "a\nb\n");
    assert_eq!(set_var("", "$x", "new"), "");
    assert_eq!(set_var("$x=1\n$xy=2\n", "$x", "3"), "$x = 3\n$x = 3\n");
}

#[test]
fn hyprland_borders_are_rewritten() {
    let existing = "general {\n$hyprland_active_border_color = rgba(ffffffff)\n  $hyprland_inactive_border_color = rgba(000000aa)\n}";
    assert_eq!(
        hyprland_contents(existing, "#112233", "#AABBCC"),
        "general {\n$hyprland_active_border_color = rgba(aabbccff)\n$hyprland_inactive_border_color = rgba(112233aa)\n}\n"
    );
}

#[test]
fn hyprland_without_variables_is_kept() {
    assert_eq!(hyprland_contents("x = 1\n", "#112233", "#AABBCC"), "x = 1\n");
    assert_eq!(
        hyprland_contents("$hyprland_inactive_border_color = 0\n", "bad", "#AABBCC"),
        "$hyprland_inactive_border_color = rgba(000000aa)\n"
    );
}

fn theme(p: &str, s: &str, darker: &str) -> String {
    format!(
        "# ==============================================================================\n# Colors (managed by color-listener)\n# primary: {p}\n# secondary: {s}\n# ==============================================================================\nbackground {p}\nforeground {s}\ncursor    {s}\nselection_background {s}\nselection_foreground {p}\nurl_color            {s}\n\n# Optional basic ANSI accents to keep theme coherent\ncolor0  {p}\ncolor7  {s}\ncolor8  {darker}\ncolor15 #ffffff\n"
    )
}

#[test]
fn kitty_theme_block() {
    assert_eq!(
        render_theme("#112233", "#AABBCC"),
        theme("#112233", "#AABBCC", "#0E1D2B")
    );
}

#[test]
fn kitty_theme_falls_back_on_bad_colors() {
    assert_eq!(render_theme("bad", "worse"), theme("#000000", "#ffffff", "#000000"));
    assert_eq!(render_theme("FFFFFF", "112233"), theme("#000000", "#ffffff", "#000000"));
}
