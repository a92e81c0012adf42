//! Profile theme colours: `#RRGGBB` text, its channels, and Chrome's ARGB integer.

use vstd::prelude::*;
use crate::normalize::spec_optional_text;
use crate::text::{char_digit, chars_of, is_hex, is_hex_c, opt_view, to_string, upper_chars, upper_seq};

verus! {

/// `s` is `#` followed by six hexadecimal digits.
pub open spec fn is_hex_color(s: Seq<char>) -> bool {
    &&& s.len() == 7
    &&& s[0] == '#'
    &&& forall|i: int| 1 <= i < 7 ==> is_hex_c(#[trigger] s[i])
}

pub open spec fn color_format_error() -> Seq<char> {
    "Profile color must use #RRGGBB format."@
}

/// What `normalize_profile_color` gives: `None` for an absent or blank colour, the colour in
/// upper case when it has the `#RRGGBB` form, else the format error.
pub open spec fn spec_profile_color(value: Option<Seq<char>>) -> Result<Option<Seq<char>>, Seq<char>> {
    match spec_optional_text(value) {
        None => Ok(None),
        Some(c) => if is_hex_color(c) {
            Ok(Some(upper_seq(c)))
        } else {
            Err(color_format_error())
        },
    }
}

pub open spec fn color_res_view(r: Result<Option<String>, String>) -> Result<Option<Seq<char>>, Seq<char>> {
    match r {
        Ok(o) => Ok(opt_view(o)),
        Err(e) => Err(e@),
    }
}

/// A profile colour in upper-case `#RRGGBB` form; `None` when absent or blank.
pub fn normalize_profile_color(value: Option<String>) -> (out: Result<Option<String>, String>)
    ensures
        color_res_view(out) == spec_profile_color(opt_view(value)),
{
    let value = match crate::normalize::normalize_optional_text(value) {
        Some(v) => v,
        None => return Ok(None),
    };
    let c = chars_of(value.as_str());
    let mut ok = c.len() == 7 && c[0] == '#';
    if ok {
        for i in 1..7
            invariant
                c.len() == 7,
                ok == forall|k: int| 1 <= k < i ==> is_hex_c(#[trigger] c@[k]),
        {
            ok = ok && is_hex(c[i]);
        }
    }
    if ok {
        Ok(Some(to_string(&upper_chars(&c))))
    } else {
        Err("Profile color must use #RRGGBB format.".to_string())
    }
}

/// The value of the two hexadecimal digits `s[i]`, `s[i + 1]`.
pub open spec fn hex_pair(s: Seq<char>, i: int) -> nat {
    char_digit(s[i]) * 16 + char_digit(s[i + 1])
}

/// What `parse_profile_color` gives: the red, green and blue channels of the colour.
pub open spec fn spec_parse_color(color: Seq<char>) -> Result<(u8, u8, u8), Seq<char>> {
    match spec_profile_color(Some(color)) {
        Err(e) => Err(e),
        Ok(None) => Err("Profile color is required."@),
        Ok(Some(n)) => Ok((hex_pair(n, 1) as u8, hex_pair(n, 3) as u8, hex_pair(n, 5) as u8)),
    }
}

pub open spec fn rgb_view(r: Result<(u8, u8, u8), String>) -> Result<(u8, u8, u8), Seq<char>> {
    match r {
        Ok(t) => Ok(t),
        Err(e) => Err(e@),
    }
}

fn hex_byte(hi: char, lo: char) -> (r: u8)
    requires
        is_hex_c(hi),
        is_hex_c(lo),
    ensures
        r == char_digit(hi) * 16 + char_digit(lo),
{
    let h = crate::text::digit_value(hi) as u8;
    let l = crate::text::digit_value(lo) as u8;
    h * 16 + l
}

/// The red, green and blue channels of a `#RRGGBB` colour.
pub fn parse_profile_color(color: &str) -> (out: Result<(u8, u8, u8), String>)
    ensures
        rgb_view(out) == spec_parse_color(color@),
{
    let normalized = match normalize_profile_color(Some(color.to_string())) {
        Ok(Some(n)) => n,
        Ok(None) => return Err("Profile color is required.".to_string()),
        Err(e) => return Err(e),
    };
    let n = chars_of(normalized.as_str());
    proof {
        let t = spec_optional_text(Some(color@)).unwrap();
        assert(n@ == upper_seq(t));
        assert forall|i: int| 1 <= i < 7 implies is_hex_c(#[trigger] n@[i]) && char_digit(n@[i]) < 16 by {
            assert(is_hex_c(t[i]));
        }
    }
    let r = hex_byte(n[1], n[2]);
    let g = hex_byte(n[3], n[4]);
    let b = hex_byte(n[5], n[6]);
    Ok((r, g, b))
}

/// Chrome's signed ARGB integer for an opaque colour.
pub fn chrome_argb_color(r: u8, g: u8, b: u8) -> (out: i32)
    ensures
        out as int == r * 65536 + g * 256 + b - 16777216,
{
    let value: u32 = 0xff00_0000u32 | ((r as u32) << 16) | ((g as u32) << 8) | (b as u32);
    assert(value == 0xff00_0000u32 + (r as u32) * 65536 + (g as u32) * 256 + (b as u32)) by (bit_vector)
        requires
            value == 0xff00_0000u32 | ((r as u32) << 16) | ((g as u32) << 8) | (b as u32),
    ;
    assert(value as i32 == (value as int) - 4294967296) by (bit_vector)
        requires
            value >= 0x8000_0000u32,
    ;
    value as i32
}

/// The colour of the `i`-th entry of the default palette.
pub open spec fn palette_color(i: int) -> Seq<char> {
    if i == 0 {
        "#2563EB"@
    } else if i == 1 {
        "#059669"@
    } else if i == 2 {
        "#DC2626"@
    } else if i == 3 {
        "#7C3AED"@
    } else if i == 4 {
        "#D97706"@
    } else if i == 5 {
        "#0F766E"@
    } else if i == 6 {
        "#DB2777"@
    } else if i == 7 {
        "#4F46E5"@
    } else if i == 8 {
        "#65A30D"@
    } else {
        "#0891B2"@
    }
}

/// The default colour of the `index`-th profile: the palette of ten, repeated.
pub fn default_profile_color(index: usize) -> (out: &'static str)
    ensures
        out@ == palette_color(index as int % 10),
{
    let i = index % 10;
    if i == 0 {
        "#2563EB"
    } else if i == 1 {
        "#059669"
    } else if i == 2 {
        "#DC2626"
    } else if i == 3 {
        "#7C3AED"
    } else if i == 4 {
        "#D97706"
    } else if i == 5 {
        "#0F766E"
    } else if i == 6 {
        "#DB2777"
    } else if i == 7 {
        "#4F46E5"
    } else if i == 8 {
        "#65A30D"
    } else {
        "#0891B2"
    }
}

/// A colour already normalised normalises to itself: what is stored reads back unchanged.
pub proof fn law_profile_color_stable(value: Option<Seq<char>>)
    ensures
        spec_profile_color(value) matches Ok(Some(c)) ==> spec_profile_color(Some(c)) == Ok::<Option<Seq<char>>, Seq<char>>(Some(c)),
{
    if let Ok(Some(c)) = spec_profile_color(value) {
        let t = spec_optional_text(value).unwrap();
        assert(c == upper_seq(t));
        assert(c.len() == 7);
        assert(c[0] == '#');
        assert forall|i: int| 1 <= i < 7 implies is_hex_c(#[trigger] c[i]) by {
            assert(is_hex_c(t[i]));
        }
        assert(!crate::text::is_ws(c[0]));
        assert(!crate::text::is_ws(c.last())) by {
            assert(is_hex_c(c[6]));
        }
        assert(crate::text::trim_start_seq(c) == c);
        assert(crate::text::trim_end_seq(c) == c);
        assert(upper_seq(c) =~= c);
    }
}

/// A hexadecimal digit for `d` (below sixteen), in upper or lower case.
pub open spec fn hex_digit(d: nat, upper: bool) -> char {
    if d < 10 {
        crate::text::digit_char(d)
    } else if upper {
        ((d - 10) + 65) as char
    } else {
        ((d - 10) + 97) as char
    }
}

/// The two hexadecimal digits of `v`, as `{:02x}` (or `{:02X}` when `upper`) writes them.
pub open spec fn hex2(v: u8, upper: bool) -> Seq<char> {
    seq![hex_digit(v as nat / 16, upper), hex_digit(v as nat % 16, upper)]
}

proof fn lemma_hex_digit(d: nat, upper: bool)
    requires
        d < 16,
    ensures
        is_hex_c(hex_digit(d, upper)),
        !crate::text::is_ws(hex_digit(d, upper)),
        char_digit(crate::text::upper_c(hex_digit(d, upper))) == d,
{
}

/// A colour already in normal form (`#RRGGBB` with upper-case digits) normalises to itself.
proof fn lemma_normal_color(c: Seq<char>)
    requires
        is_hex_color(c),
        upper_seq(c) == c,
    ensures
        spec_profile_color(Some(c)) == Ok::<Option<Seq<char>>, Seq<char>>(Some(c)),
{
    assert(!crate::text::is_ws(c[0]));
    assert(!crate::text::is_ws(c.last())) by {
        assert(is_hex_c(c[6]));
    }
    assert(crate::text::trim_start_seq(c) == c);
    assert(crate::text::trim_end_seq(c) == c);
}

/// A colour written `#` and the two hexadecimal digits of each channel, in either case,
/// parses back to those channels; a colour parses exactly when it normalises to a colour,
/// and a blank one is required.
pub proof fn law_color_round_trip(r: u8, g: u8, b: u8, ur: bool, ug: bool, ub: bool, c: Seq<char>)
    ensures
        spec_parse_color("#"@ + hex2(r, ur) + hex2(g, ug) + hex2(b, ub)) == Ok::<(u8, u8, u8), Seq<char>>((r, g, b)),
        spec_parse_color(c) is Ok <==> spec_profile_color(Some(c)) matches Ok(Some(_)),
        crate::text::trim_seq(c).len() == 0 ==> spec_parse_color(c) == Err::<(u8, u8, u8), Seq<char>>("Profile color is required."@),
{
    reveal_strlit("#");
    let t = "#"@ + hex2(r, ur) + hex2(g, ug) + hex2(b, ub);
    lemma_hex_digit(r as nat / 16, ur);
    lemma_hex_digit(r as nat % 16, ur);
    lemma_hex_digit(g as nat / 16, ug);
    lemma_hex_digit(g as nat % 16, ug);
    lemma_hex_digit(b as nat / 16, ub);
    lemma_hex_digit(b as nat % 16, ub);
    assert(t.len() == 7);
    assert(t[0] == '#');
    assert(t[1] == hex_digit(r as nat / 16, ur) && t[2] == hex_digit(r as nat % 16, ur));
    assert(t[3] == hex_digit(g as nat / 16, ug) && t[4] == hex_digit(g as nat % 16, ug));
    assert(t[5] == hex_digit(b as nat / 16, ub) && t[6] == hex_digit(b as nat % 16, ub));
    assert(is_hex_color(t));
    assert(!crate::text::is_ws(t[0]));
    assert(crate::text::trim_start_seq(t) == t);
    assert(crate::text::trim_end_seq(t) == t);
    let n = upper_seq(t);
    assert(hex_pair(n, 1) == r as nat);
    assert(hex_pair(n, 3) == g as nat);
    assert(hex_pair(n, 5) == b as nat);
}

/// Every colour of the default palette is already in normal form, and the ten differ.
pub proof fn law_palette_colors_are_normal(i: int)
    requires
        0 <= i < 10,
    ensures
        spec_profile_color(Some(palette_color(i))) == Ok::<Option<Seq<char>>, Seq<char>>(Some(palette_color(i))),
        forall|j: int, k: int| 0 <= j < k < 10 ==> palette_color(j) != palette_color(k),
{
    reveal_strlit("#2563EB");
    reveal_strlit("#059669");
    reveal_strlit("#DC2626");
    reveal_strlit("#7C3AED");
    reveal_strlit("#D97706");
    reveal_strlit("#0F766E");
    reveal_strlit("#DB2777");
    reveal_strlit("#4F46E5");
    reveal_strlit("#65A30D");
    reveal_strlit("#0891B2");
    if i == 0 {
        assert(upper_seq(palette_color(0)) =~= palette_color(0));
        lemma_normal_color(palette_color(0));
    } else if i == 1 {
        assert(upper_seq(palette_color(1)) =~= palette_color(1));
        lemma_normal_color(palette_color(1));
    } else if i == 2 {
        assert(upper_seq(palette_color(2)) =~= palette_color(2));
        lemma_normal_color(palette_color(2));
    } else if i == 3 {
        assert(upper_seq(palette_color(3)) =~= palette_color(3));
        lemma_normal_color(palette_color(3));
    } else if i == 4 {
        assert(upper_seq(palette_color(4)) =~= palette_color(4));
        lemma_normal_color(palette_color(4));
    } else if i == 5 {
        assert(upper_seq(palette_color(5)) =~= palette_color(5));
        lemma_normal_color(palette_color(5));
    } else if i == 6 {
        assert(upper_seq(palette_color(6)) =~= palette_color(6));
        lemma_normal_color(palette_color(6));
    } else if i == 7 {
        assert(upper_seq(palette_color(7)) =~= palette_color(7));
        lemma_normal_color(palette_color(7));
    } else if i == 8 {
        assert(upper_seq(palette_color(8)) =~= palette_color(8));
        lemma_normal_color(palette_color(8));
    } else {
        assert(upper_seq(palette_color(9)) =~= palette_color(9));
        lemma_normal_color(palette_color(9));
    }
    assert forall|j: int, k: int| 0 <= j < k < 10 implies palette_color(j) != palette_color(k) by {
        if palette_color(j) == palette_color(k) {
            assert(palette_color(j)[1] == palette_color(k)[1]);
            assert(palette_color(j)[2] == palette_color(k)[2]);
            assert(palette_color(j)[3] == palette_color(k)[3]);
        }
    }
}

} // verus!
