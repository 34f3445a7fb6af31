//! The color value of a shader parameter, written as a hex string
//! ("#RRGGBB" or "#RRGGBBAA").  The channels are kept exactly as authored,
//! as bytes; converting them to whatever color space the renderer wants is
//! its caller's business.

use vstd::arithmetic::div_mod::lemma_fundamental_div_mod;
use vstd::prelude::*;

verus! {

/// An sRGB color with alpha, as parsed from a hex string.
#[derive(Debug, Clone, Copy, PartialEq, Eq, Hash, Structural)]
pub struct ShaderColor {
    pub red: u8,
    pub green: u8,
    pub blue: u8,
    pub alpha: u8,
}

/// The error returned when a string is not a hex color.
#[derive(Debug, Clone)]
pub struct InvalidColorError {
    pub value: String,
}

impl InvalidColorError {
    /// A human-readable description of the error.
    pub fn message(&self) -> (r: String)
        ensures
            r@ == "invalid hex color"@,
    {
        String::from_str("invalid hex color")
    }
}

/// The value of a hex digit, in either case, or -1 for any other character.
pub open spec fn spec_hex_val(c: char) -> int {
    if 48 <= c as int <= 57 {
        c as int - 48
    } else if 65 <= c as int <= 70 {
        c as int - 55
    } else if 97 <= c as int <= 102 {
        c as int - 87
    } else {
        -1
    }
}

/// Whether a character is a hex digit.
pub open spec fn spec_is_hex_digit(c: char) -> bool {
    spec_hex_val(c) >= 0
}

/// The upper-case hex digit for a value between 0 and 15.
pub open spec fn spec_hex_char(d: int) -> char {
    if d == 0 {
        '0'
    } else if d == 1 {
        '1'
    } else if d == 2 {
        '2'
    } else if d == 3 {
        '3'
    } else if d == 4 {
        '4'
    } else if d == 5 {
        '5'
    } else if d == 6 {
        '6'
    } else if d == 7 {
        '7'
    } else if d == 8 {
        '8'
    } else if d == 9 {
        '9'
    } else if d == 10 {
        'A'
    } else if d == 11 {
        'B'
    } else if d == 12 {
        'C'
    } else if d == 13 {
        'D'
    } else if d == 14 {
        'E'
    } else {
        'F'
    }
}

/// A channel as two upper-case hex digits.
pub open spec fn spec_hex_byte(n: u8) -> Seq<char> {
    seq![spec_hex_char(n as int / 16), spec_hex_char(n as int % 16)]
}

impl ShaderColor {
    /// The canonical string for this color: "#" followed by all four
    /// channels as two upper-case hex digits each.
    pub open spec fn spec_str(self) -> Seq<char> {
        seq!['#'] + spec_hex_byte(self.red) + spec_hex_byte(self.green) + spec_hex_byte(self.blue)
            + spec_hex_byte(self.alpha)
    }

    /// The strings accepted by [`ShaderColor::parse`]: "#" followed by six
    /// or eight hex digits; with six, the alpha channel is fully opaque.
    pub open spec fn spec_parse(s: Seq<char>) -> Option<ShaderColor> {
        if (s.len() == 7 || s.len() == 9) && s[0] == '#' && (forall|i: int|
            1 <= i < s.len() ==> spec_is_hex_digit(#[trigger] s[i])) {
            Some(
                ShaderColor {
                    red: (spec_hex_val(s[1]) * 16 + spec_hex_val(s[2])) as u8,
                    green: (spec_hex_val(s[3]) * 16 + spec_hex_val(s[4])) as u8,
                    blue: (spec_hex_val(s[5]) * 16 + spec_hex_val(s[6])) as u8,
                    alpha: if s.len() == 9 {
                        (spec_hex_val(s[7]) * 16 + spec_hex_val(s[8])) as u8
                    } else {
                        255
                    },
                },
            )
        } else {
            None
        }
    }

    /// Formats this color canonically.
    pub fn to_string(&self) -> (r: String)
        ensures
            r@ == self.spec_str(),
    {
        proof {
            reveal_strlit("#");
        }
        let mut r = String::from_str("#");
        let red = hex_byte_string(self.red);
        r.append(red.as_str());
        let green = hex_byte_string(self.green);
        r.append(green.as_str());
        let blue = hex_byte_string(self.blue);
        r.append(blue.as_str());
        let alpha = hex_byte_string(self.alpha);
        r.append(alpha.as_str());
        proof {
            assert(r@ =~= self.spec_str());
        }
        r
    }

    /// Parses a hex color: "#RRGGBB" (fully opaque) or "#RRGGBBAA", with
    /// digits in either case.
    pub fn parse(value: &str) -> (r: Result<ShaderColor, InvalidColorError>)
        ensures
            r is Ok <==> Self::spec_parse(value@) is Some,
            r is Ok ==> r.unwrap() == Self::spec_parse(value@).unwrap(),
            r is Err ==> r.unwrap_err().value@ == value@,
    {
        let len = value.unicode_len();
        if (len == 7 || len == 9) && value.get_char(0) == '#' {
            let red = hex_byte_val(value, 1);
            let green = hex_byte_val(value, 3);
            let blue = hex_byte_val(value, 5);
            let alpha = if len == 9 {
                hex_byte_val(value, 7)
            } else {
                Some(255)
            };
            if let (Some(red), Some(green), Some(blue), Some(alpha)) = (red, green, blue, alpha) {
                proof {
                    assert forall|i: int| 1 <= i < value@.len() implies spec_is_hex_digit(
                        #[trigger] value@[i],
                    ) by {}
                }
                return Ok(ShaderColor { red, green, blue, alpha });
            }
        }
        Err(InvalidColorError { value: value.to_owned() })
    }

    /// Round trip: parsing a formatted color yields the color back, for
    /// every color.
    pub proof fn lemma_round_trip(self)
        ensures
            Self::spec_parse(self.spec_str()) == Some(self),
    {
        let s = self.spec_str();
        assert(s.len() == 9);
        assert(s[0] == '#');
        lemma_hex_byte_val(self.red);
        lemma_hex_byte_val(self.green);
        lemma_hex_byte_val(self.blue);
        lemma_hex_byte_val(self.alpha);
        assert(s[1] == spec_hex_char(self.red as int / 16) && s[2] == spec_hex_char(
            self.red as int % 16,
        ));
        assert(s[3] == spec_hex_char(self.green as int / 16) && s[4] == spec_hex_char(
            self.green as int % 16,
        ));
        assert(s[5] == spec_hex_char(self.blue as int / 16) && s[6] == spec_hex_char(
            self.blue as int % 16,
        ));
        assert(s[7] == spec_hex_char(self.alpha as int / 16) && s[8] == spec_hex_char(
            self.alpha as int % 16,
        ));
        assert(forall|i: int| 1 <= i < s.len() ==> spec_is_hex_digit(#[trigger] s[i]));
        assert(Self::spec_parse(s).unwrap() == self);
    }
}

/// A byte's two hex digits denote the byte: splitting it at sixteen and
/// mapping each part through the digit table comes back to the byte.
proof fn lemma_hex_byte_val(n: u8)
    ensures
        spec_hex_val(spec_hex_char(n as int / 16)) == n as int / 16,
        spec_hex_val(spec_hex_char(n as int % 16)) == n as int % 16,
        spec_hex_val(spec_hex_char(n as int / 16)) * 16 + spec_hex_val(
            spec_hex_char(n as int % 16),
        ) == n,
{
    lemma_fundamental_div_mod(n as int, 16);
}

/// The value of a hex digit character, in either case.
fn hex_digit_val(c: char) -> (r: Option<u8>)
    ensures
        r is Some <==> spec_is_hex_digit(c),
        r is Some ==> r.unwrap() == spec_hex_val(c),
{
    let code = c as u32;
    if 48 <= code && code <= 57 {
        Some((code - 48) as u8)
    } else if 65 <= code && code <= 70 {
        Some((code - 55) as u8)
    } else if 97 <= code && code <= 102 {
        Some((code - 87) as u8)
    } else {
        None
    }
}

/// The channel value written at positions `i` and `i + 1` of a hex color
/// string.
fn hex_byte_val(s: &str, i: usize) -> (r: Option<u8>)
    requires
        i + 2 <= s@.len() <= usize::MAX,
    ensures
        r is Some <==> spec_is_hex_digit(s@[i as int]) && spec_is_hex_digit(s@[i + 1]),
        r is Some ==> r.unwrap() == spec_hex_val(s@[i as int]) * 16 + spec_hex_val(s@[i + 1]),
{
    let high = hex_digit_val(s.get_char(i));
    let low = hex_digit_val(s.get_char(i + 1));
    match (high, low) {
        (Some(high), Some(low)) => Some(high * 16 + low),
        _ => None,
    }
}

/// Formats a channel as two upper-case hex digits.
fn hex_byte_string(n: u8) -> (r: String)
    ensures
        r@ == spec_hex_byte(n),
{
    let mut r = hex_char_string(n / 16);
    let low = hex_char_string(n % 16);
    r.append(low.as_str());
    proof {
        assert(r@ =~= spec_hex_byte(n));
    }
    r
}

/// Formats a single hex digit.
fn hex_char_string(d: u8) -> (r: String)
    requires
        d < 16,
    ensures
        r@ == seq![spec_hex_char(d as int)],
{
    proof {
        reveal_strlit("0");
        reveal_strlit("1");
        reveal_strlit("2");
        reveal_strlit("3");
        reveal_strlit("4");
        reveal_strlit("5");
        reveal_strlit("6");
        reveal_strlit("7");
        reveal_strlit("8");
        reveal_strlit("9");
        reveal_strlit("A");
        reveal_strlit("B");
        reveal_strlit("C");
        reveal_strlit("D");
        reveal_strlit("E");
        reveal_strlit("F");
    }
    let r = if d == 0 {
        String::from_str("0")
    } else if d == 1 {
        String::from_str("1")
    } else if d == 2 {
        String::from_str("2")
    } else if d == 3 {
        String::from_str("3")
    } else if d == 4 {
        String::from_str("4")
    } else if d == 5 {
        String::from_str("5")
    } else if d == 6 {
        String::from_str("6")
    } else if d == 7 {
        String::from_str("7")
    } else if d == 8 {
        String::from_str("8")
    } else if d == 9 {
        String::from_str("9")
    } else if d == 10 {
        String::from_str("A")
    } else if d == 11 {
        String::from_str("B")
    } else if d == 12 {
        String::from_str("C")
    } else if d == 13 {
        String::from_str("D")
    } else if d == 14 {
        String::from_str("E")
    } else {
        String::from_str("F")
    };
    proof {
        assert(r@ =~= seq![spec_hex_char(d as int)]);
    }
    r
}

} // verus!
