//! Reading a color from text: its channels in hexadecimal, or a name.

use crate::color::{
    Color, BLACK, BLUE, CYAN, GREEN, MAGENTA, ORANGE, PINK, RED, STEEL_BLUE, TRANSPARENT, WHITE, YELLOW,
};
use vstd::prelude::*;

verus! {

/// Why a text is not a color in hexadecimal.
#[derive(Clone, Copy, Debug, PartialEq, Eq, Structural)]
pub enum HexError {
    /// Nothing follows the `#`.
    Empty,
    /// A character is no hexadecimal digit.
    InvalidDigit,
    /// The digits are neither six nor eight.
    WrongLength,
}

/// The value of a hexadecimal digit, in either case.
pub open spec fn hex_digit(c: char) -> Option<u32> {
    let v = c as u32;
    if 0x30 <= v <= 0x39 {
        Some((v - 0x30) as u32)
    } else if 0x61 <= v <= 0x66 {
        Some((v - 0x61 + 10) as u32)
    } else if 0x41 <= v <= 0x46 {
        Some((v - 0x41 + 10) as u32)
    } else {
        None
    }
}

/// Whether every character is a hexadecimal digit.
pub open spec fn all_hex(text: Seq<char>) -> bool {
    forall|i: int| 0 <= i < text.len() ==> hex_digit(#[trigger] text[i]) is Some
}

/// The channel that the two digits at `i` and after it write.
pub open spec fn hex_pair(text: Seq<char>, i: int) -> u8 {
    (16 * hex_digit(text[i]).unwrap() + hex_digit(text[i + 1]).unwrap()) as u8
}

/// The color that `text` writes in hexadecimal: six digits are red, green
/// and blue of an opaque color, eight digits are red, green, blue and
/// opacity. A character that is no digit is named before a wrong number of
/// digits is.
pub open spec fn hex_spec(text: Seq<char>) -> Result<Color, HexError> {
    if text.len() == 0 {
        Err(HexError::Empty)
    } else if !all_hex(text) {
        Err(HexError::InvalidDigit)
    } else if text.len() == 6 {
        Ok(Color { r: hex_pair(text, 0), g: hex_pair(text, 2), b: hex_pair(text, 4), a: 255 })
    } else if text.len() == 8 {
        Ok(
            Color {
                r: hex_pair(text, 0),
                g: hex_pair(text, 2),
                b: hex_pair(text, 4),
                a: hex_pair(text, 6),
            },
        )
    } else {
        Err(HexError::WrongLength)
    }
}

/// What is said of each error.
pub open spec fn hex_error_text(error: HexError) -> Seq<char> {
    match error {
        HexError::Empty => "cannot parse integer from empty string"@,
        HexError::InvalidDigit => "invalid digit found in string"@,
        HexError::WrongLength => "expected six or eight hexadecimal digits"@,
    }
}

/// The packed word of a named color. Names are in lower case.
pub open spec fn named_spec(name: Seq<char>) -> Option<u32> {
    if name == "transparent"@ {
        Some(TRANSPARENT)
    } else if name == "black"@ {
        Some(BLACK)
    } else if name == "white"@ {
        Some(WHITE)
    } else if name == "red"@ {
        Some(RED)
    } else if name == "green"@ {
        Some(GREEN)
    } else if name == "blue"@ {
        Some(BLUE)
    } else if name == "cyan"@ {
        Some(CYAN)
    } else if name == "magenta"@ {
        Some(MAGENTA)
    } else if name == "yellow"@ {
        Some(YELLOW)
    } else if name == "orange"@ {
        Some(ORANGE)
    } else if name == "pink"@ {
        Some(PINK)
    } else if name == "steel_blue"@ {
        Some(STEEL_BLUE)
    } else {
        None
    }
}

/// What is said of a name that no color has.
pub open spec fn unknown_text(name: Seq<char>) -> Seq<char> {
    "unknown color '"@ + name + "'"@
}

impl HexError {
    /// The error in words.
    pub fn message(self) -> (r: String)
        ensures
            r@ == hex_error_text(self),
    {
        match self {
            HexError::Empty => String::from_str("cannot parse integer from empty string"),
            HexError::InvalidDigit => String::from_str("invalid digit found in string"),
            HexError::WrongLength => String::from_str("expected six or eight hexadecimal digits"),
        }
    }
}

fn digit(c: char) -> (r: Option<u32>)
    ensures
        r == hex_digit(c),
{
    let v: u32 = c as u32;
    if 0x30 <= v && v <= 0x39 {
        Some(v - 0x30)
    } else if 0x61 <= v && v <= 0x66 {
        Some(v - 0x61 + 10)
    } else if 0x41 <= v && v <= 0x46 {
        Some(v - 0x41 + 10)
    } else {
        None
    }
}

fn pair(text: &str, i: usize) -> (r: u8)
    requires
        i < 8,
        i + 1 < text@.len(),
        all_hex(text@),
    ensures
        r == hex_pair(text@, i as int),
{
    let high: u32 = match digit(text.get_char(i)) {
        Some(d) => d,
        None => 0,
    };
    let low: u32 = match digit(text.get_char(i + 1)) {
        Some(d) => d,
        None => 0,
    };
    (16 * high + low) as u8
}

/// Reads a color in hexadecimal.
pub fn parse_hex(text: &str) -> (r: Result<Color, HexError>)
    ensures
        r == hex_spec(text@),
{
    let n: usize = text.unicode_len();
    if n == 0 {
        return Err(HexError::Empty);
    }
    let mut i: usize = 0;
    while i < n
        invariant
            i <= n,
            n == text@.len(),
            forall|j: int| 0 <= j < i ==> hex_digit(#[trigger] text@[j]) is Some,
        decreases n - i,
    {
        if digit(text.get_char(i)).is_none() {
            assert(hex_digit(text@[i as int]) is None);
            return Err(HexError::InvalidDigit);
        }
        i = i + 1;
    }
    if n == 6 {
        Ok(Color { r: pair(text, 0), g: pair(text, 2), b: pair(text, 4), a: u8::MAX })
    } else if n == 8 {
        Ok(Color { r: pair(text, 0), g: pair(text, 2), b: pair(text, 4), a: pair(text, 6) })
    } else {
        Err(HexError::WrongLength)
    }
}

/// Whether two texts hold the same characters.
pub fn same_text(a: &str, b: &str) -> (r: bool)
    ensures
        r == (a@ == b@),
{
    let n: usize = a.unicode_len();
    if n != b.unicode_len() {
        return false;
    }
    let mut i: usize = 0;
    while i < n
        invariant
            i <= n,
            n == a@.len(),
            n == b@.len(),
            a@.subrange(0, i as int) == b@.subrange(0, i as int),
        decreases n - i,
    {
        if a.get_char(i) != b.get_char(i) {
            return false;
        }
        assert(a@.subrange(0, i + 1) == a@.subrange(0, i as int).push(a@[i as int]));
        assert(b@.subrange(0, i + 1) == b@.subrange(0, i as int).push(b@[i as int]));
        i = i + 1;
    }
    assert(a@ == a@.subrange(0, n as int));
    assert(b@ == b@.subrange(0, n as int));
    true
}

/// Looks a color up by its name.
pub fn named(name: &str) -> (r: Option<u32>)
    ensures
        r == named_spec(name@),
{
    if same_text(name, "transparent") {
        Some(TRANSPARENT)
    } else if same_text(name, "black") {
        Some(BLACK)
    } else if same_text(name, "white") {
        Some(WHITE)
    } else if same_text(name, "red") {
        Some(RED)
    } else if same_text(name, "green") {
        Some(GREEN)
    } else if same_text(name, "blue") {
        Some(BLUE)
    } else if same_text(name, "cyan") {
        Some(CYAN)
    } else if same_text(name, "magenta") {
        Some(MAGENTA)
    } else if same_text(name, "yellow") {
        Some(YELLOW)
    } else if same_text(name, "orange") {
        Some(ORANGE)
    } else if same_text(name, "pink") {
        Some(PINK)
    } else if same_text(name, "steel_blue") {
        Some(STEEL_BLUE)
    } else {
        None
    }
}

} // verus!
