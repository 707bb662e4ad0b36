//! Contents of the generated configuration files: the palette's own color
//! file, the AGS stylesheet variables, the Hyprland border variables and the
//! Kitty theme block.

use vstd::prelude::*;
use crate::color::{
    darken_hex, darkened, decimal, hex_to_rgb, hex_to_rgba_packed, is_hex_color, is_hex_rgb,
    packed_rgba, parse_hex_color, push_decimal,
};
use crate::text::{
    chars_of, extend_chars, extend_str, lines, range_starts_with, skip_ws, split_lines,
    starts_with, string_of, trim_start, views,
};

verus! {

/// `rgba(r,g,b,1.0)` for a well-formed color; a malformed one as it is.
pub open spec fn rgba_opaque(s: Seq<char>) -> Seq<char> {
    match parse_hex_color(s) {
        Some((r, g, b)) => "rgba("@ + decimal(r) + ","@ + decimal(g) + ","@ + decimal(b)
            + ",1.0)"@,
        None => s,
    }
}

/// `rgba(r,g,b,0.80)` for a well-formed color; transparent black otherwise.
pub open spec fn rgba_translucent(s: Seq<char>) -> Seq<char> {
    match parse_hex_color(s) {
        Some((r, g, b)) => "rgba("@ + decimal(r) + ","@ + decimal(g) + ","@ + decimal(b)
            + ",0.80)"@,
        None => "rgba(0,0,0,0.80)"@,
    }
}

/// The palette's own color file: two SCSS variables in `rgba()` form.
pub open spec fn colors_file(p: Seq<char>, s: Seq<char>) -> Seq<char> {
    "$primary-color: "@ + rgba_opaque(p) + ";\n$secondary-color: "@ + rgba_opaque(s) + ";\n"@
}

/// The AGS stylesheet: primary, its translucent variant, and secondary.
pub open spec fn ags_file(p: Seq<char>, s: Seq<char>) -> Seq<char> {
    "$primary-color: "@ + p + ";\n$primary-color-transparent: "@ + rgba_translucent(p)
        + ";\n$secondary-color: "@ + s + ";\n"@
}

fn push_rgba_opaque(out: &mut Vec<char>, hex: &str)
    ensures
        final(out)@ == old(out)@ + rgba_opaque(hex@),
{
    match hex_to_rgb(hex) {
        Some((r, g, b)) => {
            extend_str(out, "rgba(");
            push_decimal(out, r);
            extend_str(out, ",");
            push_decimal(out, g);
            extend_str(out, ",");
            push_decimal(out, b);
            extend_str(out, ",1.0)");
            assert(out@ =~= old(out)@ + rgba_opaque(hex@));
        },
        None => {
            extend_str(out, hex);
        },
    }
}

fn push_rgba_translucent(out: &mut Vec<char>, hex: &str)
    ensures
        final(out)@ == old(out)@ + rgba_translucent(hex@),
{
    match hex_to_rgb(hex) {
        Some((r, g, b)) => {
            extend_str(out, "rgba(");
            push_decimal(out, r);
            extend_str(out, ",");
            push_decimal(out, g);
            extend_str(out, ",");
            push_decimal(out, b);
            extend_str(out, ",0.80)");
            assert(out@ =~= old(out)@ + rgba_translucent(hex@));
        },
        None => {
            extend_str(out, "rgba(0,0,0,0.80)");
        },
    }
}

/// Text of the palette's own color file.
pub fn colors_file_contents(primary: &str, secondary: &str) -> (r: String)
    ensures
        r@ == colors_file(primary@, secondary@),
{
    let mut out: Vec<char> = Vec::new();
    extend_str(&mut out, "$primary-color: ");
    push_rgba_opaque(&mut out, primary);
    extend_str(&mut out, ";\n$secondary-color: ");
    push_rgba_opaque(&mut out, secondary);
    extend_str(&mut out, ";\n");
    assert(out@ =~= colors_file(primary@, secondary@));
    string_of(&out)
}

/// Text of the AGS stylesheet variables file.
pub fn ags_contents(primary: &str, secondary: &str) -> (r: String)
    ensures
        r@ == ags_file(primary@, secondary@),
{
    let mut out: Vec<char> = Vec::new();
    extend_str(&mut out, "$primary-color: ");
    extend_str(&mut out, primary);
    extend_str(&mut out, ";\n$primary-color-transparent: ");
    push_rgba_translucent(&mut out, primary);
    extend_str(&mut out, ";\n$secondary-color: ");
    extend_str(&mut out, secondary);
    extend_str(&mut out, ";\n");
    assert(out@ =~= ags_file(primary@, secondary@));
    string_of(&out)
}

/// A line whose text, after leading whitespace, starts with `var` becomes
/// `var = value`; any other line stays.
pub open spec fn replaced_line(l: Seq<char>, var: Seq<char>, value: Seq<char>) -> Seq<char> {
    if starts_with(trim_start(l), var) {
        var + " = "@ + value
    } else {
        l
    }
}

/// The lines, each replaced as `replaced_line` says and ended by `\n`.
pub open spec fn set_var_lines(ls: Seq<Seq<char>>, var: Seq<char>, value: Seq<char>) -> Seq<char>
    decreases ls.len(),
{
    if ls.len() == 0 {
        Seq::empty()
    } else {
        set_var_lines(ls.drop_last(), var, value) + replaced_line(ls.last(), var, value)
            + seq!['\n']
    }
}

/// `input` with every line that assigns `var` rewritten to assign `value`.
pub open spec fn set_var_text(input: Seq<char>, var: Seq<char>, value: Seq<char>) -> Seq<char> {
    set_var_lines(lines(input), var, value)
}

/// Rewrites every line of `input` whose trimmed start begins with `var` to
/// `var = value`; other lines pass through; every line ends with `\n`.
pub fn set_var(input: &str, var: &str, value: &str) -> (r: String)
    ensures
        r@ == set_var_text(input@, var@, value@),
{
    let text = chars_of(input);
    let ls = split_lines(&text);
    let var_chars = chars_of(var);
    let mut out: Vec<char> = Vec::new();
    let mut i: usize = 0;
    while i < ls.len()
        invariant
            i <= ls.len(),
            var_chars@ == var@,
            views(ls@) == lines(input@),
            out@ == set_var_lines(views(ls@).subrange(0, i as int), var@, value@),
        decreases ls.len() - i,
    {
        let line = &ls[i];
        let k = skip_ws(line, 0, line.len());
        assert(line@.subrange(0, line.len() as int) =~= line@);
        let hit = range_starts_with(line, k, line.len(), &var_chars);
        if hit {
            extend_str(&mut out, var);
            extend_str(&mut out, " = ");
            extend_str(&mut out, value);
        } else {
            extend_chars(&mut out, line);
        }
        out.push('\n');
        proof {
            let pre = views(ls@).subrange(0, i + 1);
            assert(pre.drop_last() =~= views(ls@).subrange(0, i as int));
            assert(pre.last() == line@);
        }
        i += 1;
        assert(out@ =~= set_var_lines(views(ls@).subrange(0, i as int), var@, value@));
    }
    assert(views(ls@).subrange(0, ls.len() as int) =~= views(ls@));
    string_of(&out)
}


/// Hyprland's border variables: active takes the secondary color at full
/// alpha, inactive the primary at alpha `0xAA`, both packed as `rrggbbaa`.
pub open spec fn hyprland_file(existing: Seq<char>, p: Seq<char>, s: Seq<char>) -> Seq<char> {
    set_var_text(
        set_var_text(
            existing,
            "$hyprland_active_border_color"@,
            "rgba("@ + packed_rgba(s, 0xFF) + ")"@,
        ),
        "$hyprland_inactive_border_color"@,
        "rgba("@ + packed_rgba(p, 0xAA) + ")"@,
    )
}

fn packed_value(hex: &str, alpha: u8) -> (r: String)
    ensures
        r@ == "rgba("@ + packed_rgba(hex@, alpha) + ")"@,
{
    let packed = hex_to_rgba_packed(hex, alpha);
    let mut out: Vec<char> = Vec::new();
    extend_str(&mut out, "rgba(");
    extend_str(&mut out, packed.as_str());
    extend_str(&mut out, ")");
    string_of(&out)
}

/// New text of a Hyprland colors file: `existing` with its two border
/// variables set from the palette; all other lines kept.
pub fn hyprland_contents(existing: &str, primary: &str, secondary: &str) -> (r: String)
    ensures
        r@ == hyprland_file(existing@, primary@, secondary@),
{
    let active = packed_value(secondary, 0xFF);
    let inactive = packed_value(primary, 0xAA);
    let step = set_var(existing, "$hyprland_active_border_color", active.as_str());
    set_var(step.as_str(), "$hyprland_inactive_border_color", inactive.as_str())
}

/// The primary used in the Kitty theme: black when malformed.
pub open spec fn theme_primary(p: Seq<char>) -> Seq<char> {
    if is_hex_color(p) {
        p
    } else {
        "#000000"@
    }
}

/// The secondary used in the Kitty theme: white when malformed.
pub open spec fn theme_secondary(s: Seq<char>) -> Seq<char> {
    if is_hex_color(s) {
        s
    } else {
        "#ffffff"@
    }
}

/// Share, in percent, by which the primary is darkened for the bright-black slot.
pub const ACCENT_DARKEN_PERCENT: u8 = 15;

/// The Kitty theme block: background from the primary, foreground, cursor,
/// selection and links from the secondary, and a few ANSI slots.
pub open spec fn kitty_theme(p0: Seq<char>, s0: Seq<char>) -> Seq<char> {
    let p = theme_primary(p0);
    let s = theme_secondary(s0);
    "# ==============================================================================\n# Colors (managed by color-listener)\n# primary: "@
        + p + "\n# secondary: "@ + s
        + "\n# ==============================================================================\nbackground "@
        + p + "\nforeground "@ + s + "\ncursor    "@ + s + "\nselection_background "@ + s
        + "\nselection_foreground "@ + p + "\nurl_color            "@ + s
        + "\n\n# Optional basic ANSI accents to keep theme coherent\ncolor0  "@ + p
        + "\ncolor7  "@ + s + "\ncolor8  "@ + darkened(p, ACCENT_DARKEN_PERCENT as int)
        + "\ncolor15 #ffffff\n"@
}

/// Renders the Kitty theme block for a palette.
pub fn render_theme(primary_hex: &str, secondary_hex: &str) -> (r: String)
    ensures
        r@ == kitty_theme(primary_hex@, secondary_hex@),
{
    let p: &str = if is_hex_rgb(primary_hex) { primary_hex } else { "#000000" };
    let s: &str = if is_hex_rgb(secondary_hex) { secondary_hex } else { "#ffffff" };
    let darker = darken_hex(p, ACCENT_DARKEN_PERCENT);
    let mut out: Vec<char> = Vec::new();
    extend_str(&mut out, "# ==============================================================================\n# Colors (managed by color-listener)\n# primary: ");
    extend_str(&mut out, p);
    extend_str(&mut out, "\n# secondary: ");
    extend_str(&mut out, s);
    extend_str(&mut out, "\n# ==============================================================================\nbackground ");
    extend_str(&mut out, p);
    extend_str(&mut out, "\nforeground ");
    extend_str(&mut out, s);
    extend_str(&mut out, "\ncursor    ");
    extend_str(&mut out, s);
    extend_str(&mut out, "\nselection_background ");
    extend_str(&mut out, s);
    extend_str(&mut out, "\nselection_foreground ");
    extend_str(&mut out, p);
    extend_str(&mut out, "\nurl_color            ");
    extend_str(&mut out, s);
    extend_str(&mut out, "\n\n# Optional basic ANSI accents to keep theme coherent\ncolor0  ");
    extend_str(&mut out, p);
    extend_str(&mut out, "\ncolor7  ");
    extend_str(&mut out, s);
    extend_str(&mut out, "\ncolor8  ");
    extend_str(&mut out, darker.as_str());
    extend_str(&mut out, "\ncolor15 #ffffff\n");
    assert(out@ =~= kitty_theme(primary_hex@, secondary_hex@));
    string_of(&out)
}

} // verus!
