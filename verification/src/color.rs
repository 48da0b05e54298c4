//! Display colors for rendered cells.

use vstd::prelude::*;

verus! {

/// A 24-bit RGB color.
#[derive(Debug, Clone, Copy, PartialEq, Eq, Structural)]
pub struct Color {
    pub r: u8,
    pub g: u8,
    pub b: u8,
}

impl Color {
    /// Returns the color with the given red, green and blue components.
    pub fn new(r: u8, g: u8, b: u8) -> (c: Color)
        ensures
            c == (Color { r, g, b }),
    {
        Color { r, g, b }
    }

    /// The fixed marker color used for the unused column below the end of a
    /// document.
    pub fn blue() -> (c: Color)
        ensures
            c == (Color { r: 0, g: 0, b: 0xFF }),
    {
        Color { r: 0, g: 0, b: 0xFF }
    }

    /// Renders the color as a `#rrggbb` hex string.
    pub fn to_hex(&self) -> (s: String)
        ensures
            s@ == seq![
                '#',
                spec_hex_digit((self.r / 16) as u8),
                spec_hex_digit((self.r % 16) as u8),
                spec_hex_digit((self.g / 16) as u8),
                spec_hex_digit((self.g % 16) as u8),
                spec_hex_digit((self.b / 16) as u8),
                spec_hex_digit((self.b % 16) as u8),
            ],
    {
        let mut s = String::new();
        proof {
            reveal_strlit("#");
        }
        s.append("#");
        s.append(hex_digit_str(self.r / 16));
        s.append(hex_digit_str(self.r % 16));
        s.append(hex_digit_str(self.g / 16));
        s.append(hex_digit_str(self.g % 16));
        s.append(hex_digit_str(self.b / 16));
        s.append(hex_digit_str(self.b % 16));
        proof {
            assert(s@ =~= seq![
                '#',
                spec_hex_digit((self.r / 16) as u8),
                spec_hex_digit((self.r % 16) as u8),
                spec_hex_digit((self.g / 16) as u8),
                spec_hex_digit((self.g % 16) as u8),
                spec_hex_digit((self.b / 16) as u8),
                spec_hex_digit((self.b % 16) as u8),
            ]);
        }
        s
    }
}

/// The lowercase hex digit for a value below 16.
pub open spec fn spec_hex_digit(v: u8) -> char {
    if v < 10 {
        ((v + 48) as u8) as char
    } else {
        ((v + 87) as u8) as char
    }
}

/// Returns the lowercase hex digit for a value below 16, as a string slice.
fn hex_digit_str(v: u8) -> (s: &'static str)
    requires
        v < 16,
    ensures
        s@ == seq![spec_hex_digit(v)],
{
    proof {
        reveal_strlit("0");
        reveal_strlit("1");
        reveal_strlit("2");
        reveal_strlit("3");
        reveal_strlit("4");
        reveal_strlit("5");
        reveal_strlit("6");
        reveal_strlit("7");
        reveal_strlit("8");
        reveal_strlit("9");
        reveal_strlit("a");
        reveal_strlit("b");
        reveal_strlit("c");
        reveal_strlit("d");
        reveal_strlit("e");
        reveal_strlit("f");
    }
    match v {
        0 => "0",
        1 => "1",
        2 => "2",
        3 => "3",
        4 => "4",
        5 => "5",
        6 => "6",
        7 => "7",
        8 => "8",
        9 => "9",
        10 => "a",
        11 => "b",
        12 => "c",
        13 => "d",
        14 => "e",
        _ => "f",
    }
}

} // verus!
