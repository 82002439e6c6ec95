//! Hex colors: parsing `#RRGGBB` / `#RRGGBBAA` literals into an ARGB color
//! and rendering a color back to its hex literal (alpha pair omitted when the
//! color is fully opaque).

use vstd::prelude::*;

verus! {

/// An ARGB color with 8-bit channels.
#[derive(Clone, Copy, Debug, PartialEq, Eq, Structural)]
pub struct Color {
    pub alpha: u8,
    pub red: u8,
    pub green: u8,
    pub blue: u8,
}

/// Whether `c` is a hex digit, in either case.
pub open spec fn is_hex_digit(c: char) -> bool {
    ('0' <= c && c <= '9') || ('a' <= c && c <= 'f') || ('A' <= c && c <= 'F')
}

/// The numeric value of a hex digit.
pub open spec fn hex_val(c: char) -> nat {
    if '0' <= c && c <= '9' {
        (c as nat - '0' as nat) as nat
    } else if 'a' <= c && c <= 'f' {
        (c as nat - 'a' as nat + 10) as nat
    } else {
        (c as nat - 'A' as nat + 10) as nat
    }
}

/// The value of a two-digit hex pair.
pub open spec fn hex_pair_val(hi: char, lo: char) -> nat {
    hex_val(hi) * 16 + hex_val(lo)
}

/// Whether every character of `s` in `[from, to)` is a hex digit.
pub open spec fn all_hex(s: Seq<char>, from: int, to: int) -> bool {
    forall|i: int| from <= i < to ==> is_hex_digit(#[trigger] s[i])
}

/// The color denoted by a `#RRGGBB` or `#RRGGBBAA` literal, if `s` has that
/// exact shape; six digits mean a fully opaque color.
pub open spec fn hex_color_of(s: Seq<char>) -> Option<Color> {
    if s.len() == 7 && s[0] == '#' && all_hex(s, 1, 7) {
        Some(Color {
            alpha: 255,
            red: hex_pair_val(s[1], s[2]) as u8,
            green: hex_pair_val(s[3], s[4]) as u8,
            blue: hex_pair_val(s[5], s[6]) as u8,
        })
    } else if s.len() == 9 && s[0] == '#' && all_hex(s, 1, 9) {
        Some(Color {
            alpha: hex_pair_val(s[7], s[8]) as u8,
            red: hex_pair_val(s[1], s[2]) as u8,
            green: hex_pair_val(s[3], s[4]) as u8,
            blue: hex_pair_val(s[5], s[6]) as u8,
        })
    } else {
        None
    }
}

/// The lowercase hex digit character for a value below 16.
pub open spec fn hex_digit_char(d: nat) -> char {
    if d < 10 {
        crate::fmt::digit_char(d)
    } else if d == 10 {
        'a'
    } else if d == 11 {
        'b'
    } else if d == 12 {
        'c'
    } else if d == 13 {
        'd'
    } else if d == 14 {
        'e'
    } else {
        'f'
    }
}

/// The two lowercase hex digits of a byte.
pub open spec fn hex_pair_str(n: nat) -> Seq<char> {
    seq![hex_digit_char(n / 16), hex_digit_char(n % 16)]
}

/// The hex literal of a color: `#rrggbb` when fully opaque, `#rrggbbaa`
/// otherwise.
pub open spec fn color_hex_str(c: Color) -> Seq<char> {
    if c.alpha == 255 {
        seq!['#'] + hex_pair_str(c.red as nat) + hex_pair_str(c.green as nat) + hex_pair_str(
            c.blue as nat,
        )
    } else {
        seq!['#'] + hex_pair_str(c.red as nat) + hex_pair_str(c.green as nat) + hex_pair_str(
            c.blue as nat,
        ) + hex_pair_str(c.alpha as nat)
    }
}

fn hex_digit_val(c: char) -> (r: Option<u8>)
    ensures
        r is Some <==> is_hex_digit(c),
        r is Some ==> r->0 == hex_val(c) && r->0 < 16,
{
    let u = c as u32;
    if 48 <= u && u <= 57 {
        Some((u - 48) as u8)
    } else if 97 <= u && u <= 102 {
        Some((u - 97 + 10) as u8)
    } else if 65 <= u && u <= 70 {
        Some((u - 65 + 10) as u8)
    } else {
        None
    }
}

fn hex_pair(s: &str, i: usize) -> (r: Option<u8>)
    requires
        i + 2 <= s@.len(),
        s@.len() <= usize::MAX,
    ensures
        r is Some <==> is_hex_digit(s@[i as int]) && is_hex_digit(s@[i + 1]),
        r is Some ==> r->0 == hex_pair_val(s@[i as int], s@[i + 1]),
{
    let hi = match hex_digit_val(s.get_char(i)) {
        Some(v) => v,
        None => {
            return None;
        },
    };
    let lo = match hex_digit_val(s.get_char(i + 1)) {
        Some(v) => v,
        None => {
            return None;
        },
    };
    Some(hi * 16 + lo)
}

/// Parses a `#RRGGBB` or `#RRGGBBAA` literal; anything else — a missing `#`,
/// a wrong length, a non-hex digit — is rejected.
pub fn parse_hex_color(s: &str) -> (r: Option<Color>)
    ensures
        r == hex_color_of(s@),
{
    let n = s.unicode_len();
    if n != 7 && n != 9 {
        return None;
    }
    if s.get_char(0) != '#' {
        return None;
    }
    let red = match hex_pair(s, 1) {
        Some(v) => v,
        None => {
            return None;
        },
    };
    let green = match hex_pair(s, 3) {
        Some(v) => v,
        None => {
            return None;
        },
    };
    let blue = match hex_pair(s, 5) {
        Some(v) => v,
        None => {
            return None;
        },
    };
    if n == 7 {
        Some(Color { alpha: 255, red, green, blue })
    } else {
        let alpha = match hex_pair(s, 7) {
            Some(v) => v,
            None => {
                return None;
            },
        };
        Some(Color { alpha, red, green, blue })
    }
}

fn hex_digit_str(d: u8) -> (r: &'static str)
    requires
        d < 16,
    ensures
        r@ =~= seq![hex_digit_char(d as nat)],
{
    proof {
        reveal_strlit("a");
        reveal_strlit("b");
        reveal_strlit("c");
        reveal_strlit("d");
        reveal_strlit("e");
        reveal_strlit("f");
    }
    if d < 10 {
        crate::fmt::digit_str_u8(d)
    } else {
        match d {
            10 => "a",
            11 => "b",
            12 => "c",
            13 => "d",
            14 => "e",
            _ => "f",
        }
    }
}

fn append_hex_pair(s: &mut String, v: u8)
    ensures
        final(s)@ == old(s)@ + hex_pair_str(v as nat),
{
    s.append(hex_digit_str(v / 16));
    s.append(hex_digit_str(v % 16));
    proof {
        assert(s@ =~= old(s)@ + hex_pair_str(v as nat));
    }
}

/// Renders a color as its hex literal, lowercase, omitting the alpha pair
/// when the color is fully opaque.
pub fn color_to_hex(c: Color) -> (r: String)
    ensures
        r@ == color_hex_str(c),
{
    proof {
        reveal_strlit("#");
    }
    let mut s = String::from_str("#");
    append_hex_pair(&mut s, c.red);
    append_hex_pair(&mut s, c.green);
    append_hex_pair(&mut s, c.blue);
    if c.alpha != 255 {
        append_hex_pair(&mut s, c.alpha);
    }
    proof {
        assert(s@ =~= color_hex_str(c));
    }
    s
}

/// Rendering a color and parsing the result yields the same color back: the
/// six-digit form implies full opacity, and the eight-digit form carries the
/// alpha explicitly.
pub proof fn lemma_color_hex_round_trip(c: Color)
    ensures
        hex_color_of(color_hex_str(c)) == Some(c),
{
    lemma_hex_pair_round_trip(c.red as nat);
    lemma_hex_pair_round_trip(c.green as nat);
    lemma_hex_pair_round_trip(c.blue as nat);
    lemma_hex_pair_round_trip(c.alpha as nat);
    let s = color_hex_str(c);
    if c.alpha == 255 {
        assert(s.len() == 7);
        assert(s[0] == '#');
        assert(s[1] == hex_digit_char((c.red as nat) / 16));
        assert(s[2] == hex_digit_char((c.red as nat) % 16));
        assert(s[3] == hex_digit_char((c.green as nat) / 16));
        assert(s[4] == hex_digit_char((c.green as nat) % 16));
        assert(s[5] == hex_digit_char((c.blue as nat) / 16));
        assert(s[6] == hex_digit_char((c.blue as nat) % 16));
        assert(all_hex(s, 1, 7));
        assert(hex_color_of(s) == Some(c));
    } else {
        assert(s.len() == 9);
        assert(s[0] == '#');
        assert(s[1] == hex_digit_char((c.red as nat) / 16));
        assert(s[2] == hex_digit_char((c.red as nat) % 16));
        assert(s[3] == hex_digit_char((c.green as nat) / 16));
        assert(s[4] == hex_digit_char((c.green as nat) % 16));
        assert(s[5] == hex_digit_char((c.blue as nat) / 16));
        assert(s[6] == hex_digit_char((c.blue as nat) % 16));
        assert(s[7] == hex_digit_char((c.alpha as nat) / 16));
        assert(s[8] == hex_digit_char((c.alpha as nat) % 16));
        assert(all_hex(s, 1, 9));
        assert(hex_color_of(s) == Some(c));
    }
}

proof fn lemma_hex_digit_round_trip(d: nat)
    requires
        d < 16,
    ensures
        is_hex_digit(hex_digit_char(d)),
        hex_val(hex_digit_char(d)) == d,
{
}

proof fn lemma_hex_pair_round_trip(n: nat)
    requires
        n < 256,
    ensures
        is_hex_digit(hex_pair_str(n)[0]),
        is_hex_digit(hex_pair_str(n)[1]),
        hex_pair_val(hex_pair_str(n)[0], hex_pair_str(n)[1]) == n,
{
    lemma_hex_digit_round_trip(n / 16);
    lemma_hex_digit_round_trip(n % 16);
}

} // verus!
