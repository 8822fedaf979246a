//! Pure helpers of the render pipeline: recognizing image files and turning
//! a hex web color into the renderer's subtitle color syntax.

use vstd::prelude::*;

use crate::text::push_char;
use crate::watch::{extension_of, lower, string_eq_lit};

verus! {

/// Whether `path` carries one of the recognized still-image extensions,
/// compared case-insensitively.
pub open spec fn image_file(path: Seq<char>) -> bool {
    match extension_of(path) {
        Some(e) => {
            ||| lower(e) == "png"@
            ||| lower(e) == "jpg"@
            ||| lower(e) == "jpeg"@
            ||| lower(e) == "bmp"@
            ||| lower(e) == "gif"@
        },
        None => false,
    }
}

/// Whether the file at `p` is treated as a still image by the renderer.
pub fn is_image(p: &str) -> (r: bool)
    ensures
        r == image_file(p@),
{
    match crate::watch::extension_lowered(p) {
        Some(e) => string_eq_lit(&e, "png") || string_eq_lit(&e, "jpg") || string_eq_lit(
            &e,
            "jpeg",
        ) || string_eq_lit(&e, "bmp") || string_eq_lit(&e, "gif"),
        None => false,
    }
}

/// The value of a hexadecimal digit, or `-1` for any other character.
pub open spec fn hex_val(c: char) -> int {
    if c == '0' {
        0
    } else if c == '1' {
        1
    } else if c == '2' {
        2
    } else if c == '3' {
        3
    } else if c == '4' {
        4
    } else if c == '5' {
        5
    } else if c == '6' {
        6
    } else if c == '7' {
        7
    } else if c == '8' {
        8
    } else if c == '9' {
        9
    } else if c == 'a' || c == 'A' {
        10
    } else if c == 'b' || c == 'B' {
        11
    } else if c == 'c' || c == 'C' {
        12
    } else if c == 'd' || c == 'D' {
        13
    } else if c == 'e' || c == 'E' {
        14
    } else if c == 'f' || c == 'F' {
        15
    } else {
        -1
    }
}

/// The upper-case character of a hexadecimal digit value.
pub open spec fn hex_digit(d: int) -> char {
    if d == 0 {
        '0'
    } else if d == 1 {
        '1'
    } else if d == 2 {
        '2'
    } else if d == 3 {
        '3'
    } else if d == 4 {
        '4'
    } else if d == 5 {
        '5'
    } else if d == 6 {
        '6'
    } else if d == 7 {
        '7'
    } else if d == 8 {
        '8'
    } else if d == 9 {
        '9'
    } else if d == 10 {
        'A'
    } else if d == 11 {
        'B'
    } else if d == 12 {
        'C'
    } else if d == 13 {
        'D'
    } else if d == 14 {
        'E'
    } else {
        'F'
    }
}

/// A byte as two upper-case hexadecimal digits.
pub open spec fn hex2(v: int) -> Seq<char> {
    seq![hex_digit(v / 16), hex_digit(v % 16)]
}

/// `hex` without one leading `#`, if present.
pub open spec fn strip_hash(s: Seq<char>) -> Seq<char> {
    if s.len() >= 1 && s[0] == '#' {
        s.skip(1)
    } else {
        s
    }
}

/// The byte value of two hex digits of `h` starting at `i`.
pub open spec fn byte_at(h: Seq<char>, i: int) -> int {
    hex_val(h[i]) * 16 + hex_val(h[i + 1])
}

/// The subtitle color the renderer uses for a six-digit hex web color:
/// `&H` followed by blue, green and red bytes and a closing `&`. Any other
/// input yields `None`.
pub open spec fn ass_color_spec(hex: Seq<char>) -> Option<Seq<char>> {
    let h = strip_hash(hex);
    if h.len() == 6 && (forall|i: int| 0 <= i < 6 ==> hex_val(h[i]) >= 0) {
        Some(
            "&H"@ + hex2(byte_at(h, 4)) + hex2(byte_at(h, 2)) + hex2(byte_at(h, 0)) + "&"@,
        )
    } else {
        None
    }
}

fn hex_val_x(c: char) -> (r: Option<u32>)
    ensures
        match r {
            Some(d) => hex_val(c) == d && d < 16,
            None => hex_val(c) == -1,
        },
{
    if c == '0' {
        Some(0)
    } else if c == '1' {
        Some(1)
    } else if c == '2' {
        Some(2)
    } else if c == '3' {
        Some(3)
    } else if c == '4' {
        Some(4)
    } else if c == '5' {
        Some(5)
    } else if c == '6' {
        Some(6)
    } else if c == '7' {
        Some(7)
    } else if c == '8' {
        Some(8)
    } else if c == '9' {
        Some(9)
    } else if c == 'a' || c == 'A' {
        Some(10)
    } else if c == 'b' || c == 'B' {
        Some(11)
    } else if c == 'c' || c == 'C' {
        Some(12)
    } else if c == 'd' || c == 'D' {
        Some(13)
    } else if c == 'e' || c == 'E' {
        Some(14)
    } else if c == 'f' || c == 'F' {
        Some(15)
    } else {
        None
    }
}

fn hex_digit_x(d: u32) -> (c: char)
    requires
        d < 16,
    ensures
        c == hex_digit(d as int),
{
    if d == 0 {
        '0'
    } else if d == 1 {
        '1'
    } else if d == 2 {
        '2'
    } else if d == 3 {
        '3'
    } else if d == 4 {
        '4'
    } else if d == 5 {
        '5'
    } else if d == 6 {
        '6'
    } else if d == 7 {
        '7'
    } else if d == 8 {
        '8'
    } else if d == 9 {
        '9'
    } else if d == 10 {
        'A'
    } else if d == 11 {
        'B'
    } else if d == 12 {
        'C'
    } else if d == 13 {
        'D'
    } else if d == 14 {
        'E'
    } else {
        'F'
    }
}

fn push_hex2(out: &mut String, v: u32)
    requires
        v < 256,
    ensures
        final(out)@ == old(out)@ + hex2(v as int),
{
    push_char(out, hex_digit_x(v / 16));
    push_char(out, hex_digit_x(v % 16));
    proof {
        assert(out@ =~= old(out)@ + hex2(v as int));
    }
}

/// Turns a six-digit hex web color, with or without a leading `#`, into the
/// renderer's subtitle color syntax.
pub fn ass_color(hex: &str) -> (r: Option<String>)
    ensures
        match r {
            Some(s) => ass_color_spec(hex@) == Some(s@),
            None => ass_color_spec(hex@) is None,
        },
{
    let chars = crate::text::str_chars(hex);
    let start: usize = if chars.len() >= 1 && chars[0] == '#' {
        1
    } else {
        0
    };
    let ghost h = strip_hash(hex@);
    proof {
        assert(h =~= hex@.skip(start as int));
    }
    if chars.len() - start != 6 {
        return None;
    }
    let mut vals: Vec<u32> = Vec::new();
    let mut i: usize = 0;
    while i < 6
        invariant
            i <= 6,
            start + 6 == chars.len(),
            chars@ == hex@,
            h == strip_hash(hex@),
            h =~= hex@.skip(start as int),
            vals@.len() == i,
            forall|j: int| 0 <= j < i ==> hex_val(h[j]) == vals@[j] && vals@[j] < 16,
        decreases 6 - i,
    {
        match hex_val_x(chars[start + i]) {
            Some(d) => {
                proof {
                    assert(h[i as int] == hex@[(start + i) as int]);
                }
                vals.push(d);
            },
            None => {
                proof {
                    assert(h[i as int] == hex@[(start + i) as int]);
                    assert(hex_val(h[i as int]) == -1);
                }
                return None;
            },
        }
        i += 1;
    }
    let rv = vals[0] * 16 + vals[1];
    let gv = vals[2] * 16 + vals[3];
    let bv = vals[4] * 16 + vals[5];
    let mut out = String::new();
    push_char(&mut out, '&');
    push_char(&mut out, 'H');
    push_hex2(&mut out, bv);
    push_hex2(&mut out, gv);
    push_hex2(&mut out, rv);
    push_char(&mut out, '&');
    proof {
        reveal_strlit("&H");
        reveal_strlit("&");
        assert(bv as int == byte_at(h, 4));
        assert(gv as int == byte_at(h, 2));
        assert(rv as int == byte_at(h, 0));
        assert(out@ =~= "&H"@ + hex2(byte_at(h, 4)) + hex2(byte_at(h, 2)) + hex2(byte_at(h, 0))
            + "&"@);
    }
    Some(out)
}

} // verus!
