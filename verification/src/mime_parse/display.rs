//! Error messages.
use super::parsed::{Byte, ParseError};
use vstd::prelude::*;
use vstd::string::StringExecFns;

verus! {

/// The digit for a value below 16, in lower case.
pub open spec fn hex_digit(d: int) -> char {
    if d < 10 {
        (0x30 + d) as char
    } else {
        (0x57 + d) as char
    }
}

/// The decimal digits of a number, without leading zeros.
pub open spec fn decimal(n: nat) -> Seq<char>
    decreases n,
{
    if n < 10 {
        seq![(0x30 + n) as char]
    } else {
        decimal(n / 10).push((0x30 + n % 10) as char)
    }
}

/// A byte between quotes, in a form that can be read: a few control bytes
/// and the backslash by their usual names, other ASCII bytes from the space
/// on as they are, the rest as two hexadecimal digits.
pub open spec fn escaped(b: u8) -> Seq<char> {
    if b == 0x0a {
        "'\\n'"@
    } else if b == 0x0d {
        "'\\r'"@
    } else if b == 0x09 {
        "'\\t'"@
    } else if b == 0x5c {
        "'\\'"@
    } else if b == 0 {
        "'\\0'"@
    } else if 0x20 <= b <= 0x7f {
        "'"@ + seq![b as char] + "'"@
    } else {
        "'\\x"@ + seq![hex_digit(b as int / 16), hex_digit(b as int % 16)] + "'"@
    }
}

/// What an error says in general.
pub open spec fn description(e: ParseError) -> Seq<char> {
    match e {
        ParseError::MissingSlash => "a slash (/) was missing between the type and subtype"@,
        ParseError::MissingEqual => "an equals sign (=) was missing between a parameter and its value"@,
        ParseError::MissingQuote => "a quote (\") was missing from a parameter value"@,
        ParseError::InvalidToken { .. } => "invalid token"@,
        ParseError::InvalidRange => "unexpected asterisk"@,
        ParseError::TooLong => "the string is too long"@,
    }
}

/// The message of an error: its description, and for a byte that the
/// grammar does not allow also the byte and its position.
pub open spec fn message(e: ParseError) -> Seq<char> {
    match e {
        ParseError::InvalidToken { pos, byte } => description(e) + ", "@ + escaped(byte.0)
            + " at position "@ + decimal(pos as nat),
        _ => description(e),
    }
}

/// `format!("{}", c as char)`: an ASCII byte as a string of its one
/// character.
#[verifier::external_body]
fn format_ascii(c: u8) -> (r: String)
    requires
        c <= 0x7f,
    ensures
        r@ == seq![c as char],
{
    format!("{}", c as char)
}

/// `format!("{:02x}", c)`: a byte as two hexadecimal digits in lower case.
#[verifier::external_body]
fn format_hex(c: u8) -> (r: String)
    ensures
        r@ == seq![hex_digit(c as int / 16), hex_digit(c as int % 16)],
{
    format!("{:02x}", c)
}

/// `format!("{}", n)`: a number in decimal digits.
#[verifier::external_body]
fn format_decimal(n: usize) -> (r: String)
    ensures
        r@ == decimal(n as nat),
{
    format!("{}", n)
}

impl Byte {
    /// The byte between quotes, in a form that can be read.
    pub fn escaped(&self) -> (r: String)
        ensures
            r@ == escaped(self.0),
    {
        let b = self.0;
        if b == 0x0a {
            String::from_str("'\\n'")
        } else if b == 0x0d {
            String::from_str("'\\r'")
        } else if b == 0x09 {
            String::from_str("'\\t'")
        } else if b == 0x5c {
            String::from_str("'\\'")
        } else if b == 0 {
            String::from_str("'\\0'")
        } else if 0x20 <= b && b <= 0x7f {
            let mut out = String::from_str("'");
            out.append(format_ascii(b).as_str());
            out.append("'");
            out
        } else {
            let mut out = String::from_str("'\\x");
            out.append(format_hex(b).as_str());
            out.append("'");
            out
        }
    }
}

impl ParseError {
    /// What the error says in general.
    pub fn description(&self) -> (r: &'static str)
        ensures
            r@ == description(*self),
    {
        match self {
            ParseError::MissingSlash => "a slash (/) was missing between the type and subtype",
            ParseError::MissingEqual => "an equals sign (=) was missing between a parameter and its value",
            ParseError::MissingQuote => "a quote (\") was missing from a parameter value",
            ParseError::InvalidToken { .. } => "invalid token",
            ParseError::InvalidRange => "unexpected asterisk",
            ParseError::TooLong => "the string is too long",
        }
    }

    /// The message of the error.
    pub fn to_string(&self) -> (r: String)
        ensures
            r@ == message(*self),
    {
        let mut out = String::from_str(self.description());
        match self {
            ParseError::InvalidToken { pos, byte } => {
                out.append(", ");
                out.append(byte.escaped().as_str());
                out.append(" at position ");
                out.append(format_decimal(*pos).as_str());
            },
            _ => {},
        }
        out
    }
}

} // verus!
