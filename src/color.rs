//! `#RRGGBB` colors: parsing, hex and decimal rendering, and the integer
//! channel adjustments applied to a palette.

use vstd::prelude::*;
use crate::text::{chars_of, string_of};

verus! {

pub open spec fn is_hex_digit(c: char) -> bool {
    ('0' <= c && c <= '9') || ('a' <= c && c <= 'f') || ('A' <= c && c <= 'F')
}

/// Value of a hex digit of either case.
pub open spec fn hex_val(c: char) -> int {
    if '0' <= c && c <= '9' {
        c as int - '0' as int
    } else if 'a' <= c && c <= 'f' {
        c as int - 'a' as int + 10
    } else {
        c as int - 'A' as int + 10
    }
}

/// The byte written as the two hex digits `hi lo`.
pub open spec fn byte_of(hi: char, lo: char) -> u8 {
    (16 * hex_val(hi) + hex_val(lo)) as u8
}

/// `s` is `#` followed by exactly six hex digits.
pub open spec fn is_hex_color(s: Seq<char>) -> bool {
    s.len() == 7 && s[0] == '#' && forall|i: int| 1 <= i < 7 ==> is_hex_digit(#[trigger] s[i])
}

/// The channels of a `#RRGGBB` string, or `None` when it is malformed.
pub open spec fn parse_hex_color(s: Seq<char>) -> Option<(u8, u8, u8)> {
    if is_hex_color(s) {
        Some((byte_of(s[1], s[2]), byte_of(s[3], s[4]), byte_of(s[5], s[6])))
    } else {
        None
    }
}

/// Upper-case hex digit of `n < 16`.
pub open spec fn upper_digit(n: int) -> char {
    if n < 10 {
        ('0' as int + n) as char
    } else {
        ('A' as int + n - 10) as char
    }
}

/// Lower-case hex digit of `n < 16`.
pub open spec fn lower_digit(n: int) -> char {
    if n < 10 {
        ('0' as int + n) as char
    } else {
        ('a' as int + n - 10) as char
    }
}

/// Decimal digit of `n < 10`.
pub open spec fn dec_digit(n: int) -> char {
    ('0' as int + n) as char
}

/// A byte as two upper-case hex digits.
pub open spec fn upper_byte(b: u8) -> Seq<char> {
    seq![upper_digit((b / 16) as int), upper_digit((b % 16) as int)]
}

/// A byte as two lower-case hex digits.
pub open spec fn lower_byte(b: u8) -> Seq<char> {
    seq![lower_digit((b / 16) as int), lower_digit((b % 16) as int)]
}

/// A byte in decimal, without leading zeros.
pub open spec fn decimal(b: u8) -> Seq<char> {
    if b < 10 {
        seq![dec_digit(b as int)]
    } else if b < 100 {
        seq![dec_digit((b / 10) as int), dec_digit((b % 10) as int)]
    } else {
        seq![dec_digit((b / 100) as int), dec_digit(((b / 10) % 10) as int), dec_digit((b % 10) as int)]
    }
}

/// The canonical `#RRGGBB` form, upper case.
pub open spec fn hex_string(r: u8, g: u8, b: u8) -> Seq<char> {
    seq!['#'] + upper_byte(r) + upper_byte(g) + upper_byte(b)
}

fn hex_digit_value(c: char) -> (v: u8)
    requires
        is_hex_digit(c),
    ensures
        v as int == hex_val(c),
        v < 16,
{
    if '0' <= c && c <= '9' {
        (c as u32 - '0' as u32) as u8
    } else if 'a' <= c && c <= 'f' {
        (c as u32 - 'a' as u32 + 10) as u8
    } else {
        (c as u32 - 'A' as u32 + 10) as u8
    }
}

fn is_hex_digit_char(c: char) -> (r: bool)
    ensures
        r == is_hex_digit(c),
{
    ('0' <= c && c <= '9') || ('a' <= c && c <= 'f') || ('A' <= c && c <= 'F')
}

fn upper_digit_char(n: u8) -> (c: char)
    requires
        n < 16,
    ensures
        c == upper_digit(n as int),
{
    if n < 10 {
        ((48u8 + n) as char)
    } else {
        ((65u8 + n - 10) as char)
    }
}

fn lower_digit_char(n: u8) -> (c: char)
    requires
        n < 16,
    ensures
        c == lower_digit(n as int),
{
    if n < 10 {
        ((48u8 + n) as char)
    } else {
        ((97u8 + n - 10) as char)
    }
}

/// Appends the decimal form of `b`.
pub fn push_decimal(out: &mut Vec<char>, b: u8)
    ensures
        final(out)@ == old(out)@ + decimal(b),
{
    if b >= 100 {
        out.push((48u8 + b / 100) as char);
    }
    if b >= 10 {
        out.push((48u8 + (b / 10) % 10) as char);
    }
    out.push((48u8 + b % 10) as char);
    assert(out@ =~= old(out)@ + decimal(b));
}

/// Appends `b` as two upper-case hex digits.
pub fn push_upper_byte(out: &mut Vec<char>, b: u8)
    ensures
        final(out)@ == old(out)@ + upper_byte(b),
{
    out.push(upper_digit_char(b / 16));
    out.push(upper_digit_char(b % 16));
    assert(out@ =~= old(out)@ + upper_byte(b));
}

/// Appends `b` as two lower-case hex digits.
pub fn push_lower_byte(out: &mut Vec<char>, b: u8)
    ensures
        final(out)@ == old(out)@ + lower_byte(b),
{
    out.push(lower_digit_char(b / 16));
    out.push(lower_digit_char(b % 16));
    assert(out@ =~= old(out)@ + lower_byte(b));
}

/// Channels of `s[1..7]` where `s` is a well-formed `#RRGGBB` string.
fn channels_at(s: &Vec<char>) -> (r: (u8, u8, u8))
    requires
        is_hex_color(s@),
    ensures
        Some(r) == parse_hex_color(s@),
{
    let r = hex_digit_value(s[1]) * 16 + hex_digit_value(s[2]);
    let g = hex_digit_value(s[3]) * 16 + hex_digit_value(s[4]);
    let b = hex_digit_value(s[5]) * 16 + hex_digit_value(s[6]);
    (r, g, b)
}

/// Whether `s` is a well-formed `#RRGGBB` string.
fn check_hex_color(s: &Vec<char>) -> (ok: bool)
    ensures
        ok == is_hex_color(s@),
{
    if s.len() != 7 || s[0] != '#' {
        return false;
    }
    let mut i: usize = 1;
    while i < 7
        invariant
            1 <= i <= 7,
            s.len() == 7,
            forall|j: int| 1 <= j < i ==> is_hex_digit(#[trigger] s@[j]),
        decreases 7 - i,
    {
        if !is_hex_digit_char(s[i]) {
            return false;
        }
        i += 1;
    }
    true
}

/// Parses a `#RRGGBB` color (hex digits of either case); `None` when
/// malformed.
pub fn hex_to_rgb(hex: &str) -> (r: Option<(u8, u8, u8)>)
    ensures
        r == parse_hex_color(hex@),
{
    let s = chars_of(hex);
    if check_hex_color(&s) {
        Some(channels_at(&s))
    } else {
        None
    }
}

/// Renders channels as canonical upper-case `#RRGGBB`.
pub fn to_hex(r: u8, g: u8, b: u8) -> (s: String)
    ensures
        s@ == hex_string(r, g, b),
{
    let mut out: Vec<char> = Vec::new();
    out.push('#');
    push_upper_byte(&mut out, r);
    push_upper_byte(&mut out, g);
    push_upper_byte(&mut out, b);
    assert(out@ =~= hex_string(r, g, b));
    string_of(&out)
}


/// `c` scaled by `keep / 100`, rounded to nearest with halves rounded up.
pub open spec fn scale_percent(c: u8, keep: int) -> u8 {
    ((2 * c * keep + 100) / 200) as u8
}

/// A color darkened by `percent`: each channel scaled by `(100 - percent) / 100`.
/// A string that is not a well-formed `#RRGGBB` color is returned as it is.
pub open spec fn darkened(s: Seq<char>, percent: int) -> Seq<char> {
    match parse_hex_color(s) {
        Some((r, g, b)) => {
            let keep = 100 - percent;
            hex_string(scale_percent(r, keep), scale_percent(g, keep), scale_percent(b, keep))
        },
        None => s,
    }
}

/// Eight lower-case hex digits `rrggbbaa`; black when the color is malformed.
pub open spec fn packed_rgba(s: Seq<char>, alpha: u8) -> Seq<char> {
    match parse_hex_color(s) {
        Some((r, g, b)) => lower_byte(r) + lower_byte(g) + lower_byte(b) + lower_byte(alpha),
        None => seq!['0', '0', '0', '0', '0', '0'] + lower_byte(alpha),
    }
}

/// Largest value a channel of the primary color may take.
pub const PRIMARY_MAX_CHANNEL: u8 = 0x22;

pub open spec fn max3(r: u8, g: u8, b: u8) -> u8 {
    if r >= g && r >= b {
        r
    } else if g >= b {
        g
    } else {
        b
    }
}

/// `c` scaled by `PRIMARY_MAX_CHANNEL / m`, rounded to nearest with halves rounded up.
pub open spec fn rescale_channel(c: u8, m: u8) -> u8 {
    ((2 * c * PRIMARY_MAX_CHANNEL + m) / (2 * m)) as u8
}

/// Channels scaled down proportionally so that the largest is
/// `PRIMARY_MAX_CHANNEL`; unchanged when none exceeds it.
pub open spec fn capped(r: u8, g: u8, b: u8) -> (u8, u8, u8) {
    let m = max3(r, g, b);
    if m > PRIMARY_MAX_CHANNEL {
        (rescale_channel(r, m), rescale_channel(g, m), rescale_channel(b, m))
    } else {
        (r, g, b)
    }
}

/// Whether `hex` is a well-formed `#RRGGBB` color (hex digits of either case).
pub fn is_hex_rgb(hex: &str) -> (r: bool)
    ensures
        r == is_hex_color(hex@),
{
    let s = chars_of(hex);
    check_hex_color(&s)
}

fn scale_channel(c: u8, keep: u8) -> (r: u8)
    requires
        keep <= 100,
    ensures
        r == scale_percent(c, keep as int),
{
    assert(2 * c * keep + 100 <= 51100) by (nonlinear_arith)
        requires c <= 255, keep <= 100;
    let v: u32 = (2 * (c as u32) * (keep as u32) + 100) / 200;
    assert(v <= 255);
    v as u8
}

/// Darkens a hex color by `percent` percent per channel (see `darkened`).
pub fn darken_hex(hex: &str, percent: u8) -> (r: String)
    requires
        percent <= 100,
    ensures
        r@ == darkened(hex@, percent as int),
{
    match hex_to_rgb(hex) {
        Some((r, g, b)) => {
            let keep = 100 - percent;
            to_hex(scale_channel(r, keep), scale_channel(g, keep), scale_channel(b, keep))
        },
        None => string_of(&chars_of(hex)),
    }
}

/// Packs a `#RRGGBB` color and an alpha as `rrggbbaa`, black when malformed.
pub fn hex_to_rgba_packed(hex: &str, alpha: u8) -> (r: String)
    ensures
        r@ == packed_rgba(hex@, alpha),
{
    let mut out: Vec<char> = Vec::new();
    match hex_to_rgb(hex) {
        Some((r, g, b)) => {
            push_lower_byte(&mut out, r);
            push_lower_byte(&mut out, g);
            push_lower_byte(&mut out, b);
        },
        None => {
            let mut i: usize = 0;
            while i < 6
                invariant
                    i <= 6,
                    out@ == Seq::new(i as nat, |j: int| '0'),
                decreases 6 - i,
            {
                out.push('0');
                i += 1;
                assert(out@ =~= Seq::new(i as nat, |j: int| '0'));
            }
            assert(out@ =~= seq!['0', '0', '0', '0', '0', '0']);
        },
    }
    push_lower_byte(&mut out, alpha);
    string_of(&out)
}

fn max_of(r: u8, g: u8, b: u8) -> (m: u8)
    ensures
        m == max3(r, g, b),
{
    if r >= g && r >= b {
        r
    } else if g >= b {
        g
    } else {
        b
    }
}

fn rescale(c: u8, m: u8) -> (r: u8)
    requires
        c <= m,
        m > PRIMARY_MAX_CHANNEL,
    ensures
        r == rescale_channel(c, m),
        r <= PRIMARY_MAX_CHANNEL,
        c == m ==> r == PRIMARY_MAX_CHANNEL,
{
    let num: u32 = 2 * (c as u32) * 34 + (m as u32);
    let den: u32 = 2 * (m as u32);
    assert(num < 35 * den) by (nonlinear_arith)
        requires num == 2 * c * 34 + m, den == 2 * m, c <= m, m > 34;
    assert(num / den < 35) by (nonlinear_arith)
        requires num < 35 * den, den > 0;
    assert(c == m ==> num / den == 34) by (nonlinear_arith)
        requires num == 2 * c * 34 + m, den == 2 * m, m > 34;
    (num / den) as u8
}

/// Scales the channels down proportionally so that none exceeds
/// `PRIMARY_MAX_CHANNEL`; the largest then equals it exactly.
pub fn clamp_max_channel(r: u8, g: u8, b: u8) -> (c: (u8, u8, u8))
    ensures
        c == capped(r, g, b),
        max3(c.0, c.1, c.2) <= PRIMARY_MAX_CHANNEL,
        max3(r, g, b) > PRIMARY_MAX_CHANNEL ==> max3(c.0, c.1, c.2) == PRIMARY_MAX_CHANNEL,
{
    let m = max_of(r, g, b);
    if m > PRIMARY_MAX_CHANNEL {
        (rescale(r, m), rescale(g, m), rescale(b, m))
    } else {
        (r, g, b)
    }
}


proof fn lemma_upper_digit(n: int)
    requires
        0 <= n < 16,
    ensures
        is_hex_digit(upper_digit(n)),
        hex_val(upper_digit(n)) == n,
{
}

/// Rendering channels as `#RRGGBB` and parsing the text back gives the
/// same channels.
pub proof fn lemma_hex_round_trip(r: u8, g: u8, b: u8)
    ensures
        is_hex_color(hex_string(r, g, b)),
        parse_hex_color(hex_string(r, g, b)) == Some((r, g, b)),
{
    let s = hex_string(r, g, b);
    assert(s =~= seq![
        '#',
        upper_digit((r / 16) as int),
        upper_digit((r % 16) as int),
        upper_digit((g / 16) as int),
        upper_digit((g % 16) as int),
        upper_digit((b / 16) as int),
        upper_digit((b % 16) as int),
    ]);
    lemma_upper_digit((r / 16) as int);
    lemma_upper_digit((r % 16) as int);
    lemma_upper_digit((g / 16) as int);
    lemma_upper_digit((g % 16) as int);
    lemma_upper_digit((b / 16) as int);
    lemma_upper_digit((b % 16) as int);
    assert forall|i: int| 1 <= i < 7 implies is_hex_digit(#[trigger] s[i]) by {}
}

} // verus!
