use crate::config::RunnerMenuSettings;
use vstd::prelude::*;

verus! {

/// An opaque RGB color.
#[derive(Clone, Copy, Debug, PartialEq, Eq, Structural)]
pub struct Color {
    pub r: u8,
    pub g: u8,
    pub b: u8,
}

/// A color string is not of the form `#rrggbb`.
#[derive(Debug, Clone)]
pub struct ColorParseError;

pub open spec fn is_hex_digit(c: char) -> bool {
    ('0' <= c && c <= '9') || ('a' <= c && c <= 'f') || ('A' <= c && c <= 'F')
}

pub open spec fn hex_value(c: char) -> int {
    if '0' <= c && c <= '9' {
        c as int - '0' as int
    } else if 'a' <= c && c <= 'f' {
        c as int - 'a' as int + 10
    } else {
        c as int - 'A' as int + 10
    }
}

/// `s` is `#` followed by six hexadecimal digits.
pub open spec fn is_hex_color(s: Seq<char>) -> bool {
    &&& s.len() == 7
    &&& s[0] == '#'
    &&& forall|i: int| 1 <= i < 7 ==> is_hex_digit(#[trigger] s[i])
}

/// The byte written by the two hexadecimal digits at `i` and `i + 1`.
pub open spec fn hex_byte(s: Seq<char>, i: int) -> int {
    16 * hex_value(s[i]) + hex_value(s[i + 1])
}

/// The color that a `#rrggbb` string writes.
pub open spec fn spec_color(s: Seq<char>) -> Color {
    Color { r: hex_byte(s, 1) as u8, g: hex_byte(s, 3) as u8, b: hex_byte(s, 5) as u8 }
}

fn hex_digit(c: char) -> (r: Option<u8>)
    ensures
        r is Some <==> is_hex_digit(c),
        r is Some ==> r->0 as int == hex_value(c) && r->0 < 16,
{
    if '0' <= c && c <= '9' {
        Some((c as u32 - '0' as u32) as u8)
    } else if 'a' <= c && c <= 'f' {
        Some((c as u32 - 'a' as u32 + 10) as u8)
    } else if 'A' <= c && c <= 'F' {
        Some((c as u32 - 'A' as u32 + 10) as u8)
    } else {
        None
    }
}

/// Parses the two hexadecimal digits at `i` and `i + 1` of `hex`.
fn parse_byte(hex: &str, i: usize) -> (r: Option<u8>)
    requires
        i + 1 < hex@.len(),
        i < 7,
    ensures
        r is Some <==> is_hex_digit(hex@[i as int]) && is_hex_digit(hex@[i + 1]),
        r is Some ==> r->0 as int == hex_byte(hex@, i as int),
{
    let hi = hex_digit(hex.get_char(i));
    let lo = hex_digit(hex.get_char(i + 1));
    match (hi, lo) {
        (Some(h), Some(l)) => {
            assert(h * 16 <= 240) by (nonlinear_arith)
                requires
                    h < 16,
            ;
            Some(h * 16 + l)
        },
        _ => None,
    }
}

/// Parses a `#rrggbb` color.
pub fn color_from_hex(hex: &str) -> (r: Result<Color, ColorParseError>)
    ensures
        r is Ok <==> is_hex_color(hex@),
        r is Ok ==> r->Ok_0 == spec_color(hex@),
{
    if hex.unicode_len() != 7 || hex.get_char(0) != '#' {
        return Err(ColorParseError);
    }
    let r = parse_byte(hex, 1);
    let g = parse_byte(hex, 3);
    let b = parse_byte(hex, 5);
    match (r, g, b) {
        (Some(r), Some(g), Some(b)) => {
            proof {
                assert forall|i: int| 1 <= i < 7 implies is_hex_digit(#[trigger] hex@[i]) by {
                    if i == 2 || i == 4 || i == 6 {
                        assert(is_hex_digit(hex@[i]));
                    }
                }
            }
            Ok(Color { r, g, b })
        },
        _ => {
            proof {
                if is_hex_color(hex@) {
                    assert(is_hex_digit(hex@[1]) && is_hex_digit(hex@[2]));
                    assert(is_hex_digit(hex@[3]) && is_hex_digit(hex@[4]));
                    assert(is_hex_digit(hex@[5]) && is_hex_digit(hex@[6]));
                }
            }
            Err(ColorParseError)
        },
    }
}

/// The five colors of the menu, resolved.
#[derive(Clone, Copy, Debug, PartialEq, Eq, Structural)]
pub struct Palette {
    pub font: Color,
    pub font_active: Color,
    pub background: Color,
    pub background_active: Color,
    pub border: Color,
}

impl Palette {
    /// Resolves the settings' colors; fails if any of them is malformed.
    pub fn from_settings(settings: &RunnerMenuSettings) -> (r: Result<Palette, ColorParseError>)
        ensures
            r is Ok <==> {
                &&& is_hex_color(settings.font_color@)
                &&& is_hex_color(settings.font_color_active@)
                &&& is_hex_color(settings.background_color@)
                &&& is_hex_color(settings.background_color_active@)
                &&& is_hex_color(settings.border_color@)
            },
            r is Ok ==> r->Ok_0 == (Palette {
                font: spec_color(settings.font_color@),
                font_active: spec_color(settings.font_color_active@),
                background: spec_color(settings.background_color@),
                background_active: spec_color(settings.background_color_active@),
                border: spec_color(settings.border_color@),
            }),
    {
        let font = color_from_hex(settings.font_color.as_str())?;
        let font_active = color_from_hex(settings.font_color_active.as_str())?;
        let background = color_from_hex(settings.background_color.as_str())?;
        let background_active = color_from_hex(settings.background_color_active.as_str())?;
        let border = color_from_hex(settings.border_color.as_str())?;
        Ok(Palette { font, font_active, background, background_active, border })
    }
}

} // verus!
