//! Port numbers: reading one from a JSON value or from decimal text.

use crate::json::{Json, JsonView};
use crate::text::chars_of;
use vstd::prelude::*;

verus! {

/// Why a JSON value gives no port.
#[derive(Debug, Clone, Copy, PartialEq, Eq, Structural)]
pub enum PortError {
    /// An integer outside 0..=65535.
    OutOfRange,
    /// A string that is no decimal number in 0..=65535.
    InvalidString,
    /// A value that is neither an integer nor a string.
    Unsupported,
}

impl PortError {
    /// What the error says.
    pub open spec fn text(self) -> Seq<char> {
        match self {
            PortError::OutOfRange => "port out of range"@,
            PortError::InvalidString => "invalid port string"@,
            PortError::Unsupported => "unsupported port value"@,
        }
    }

    /// What the error says.
    pub fn message(&self) -> (m: &'static str)
        ensures
            m@ == self.text(),
    {
        match self {
            PortError::OutOfRange => "port out of range",
            PortError::InvalidString => "invalid port string",
            PortError::Unsupported => "unsupported port value",
        }
    }
}

/// Whether a character is an ASCII digit.
pub open spec fn is_digit(c: char) -> bool {
    '0' <= c <= '9'
}

/// Whether a text holds ASCII digits only.
pub open spec fn all_digits(text: Seq<char>) -> bool {
    forall|i: int| 0 <= i < text.len() ==> is_digit(#[trigger] text[i])
}

/// The number that a run of decimal digits spells.
pub open spec fn decimal_value(digits: Seq<char>) -> nat
    decreases digits.len(),
{
    if digits.len() == 0 {
        0
    } else {
        (decimal_value(digits.drop_last()) * 10 + (digits.last() as int - '0' as int)) as nat
    }
}

/// The port that a decimal text spells: an optional `+`, then at least one
/// digit, with a value of at most 65535.
pub open spec fn port_of_text(text: Seq<char>) -> Option<u16> {
    let digits = if text.len() > 0 && text[0] == '+' {
        text.skip(1)
    } else {
        text
    };
    if digits.len() > 0 && all_digits(digits) && decimal_value(digits) <= u16::MAX {
        Some(decimal_value(digits) as u16)
    } else {
        None
    }
}

/// The port that a JSON value gives.
pub open spec fn port_of(v: JsonView) -> Result<u16, PortError> {
    match v {
        JsonView::Int(n) => if 0 <= n <= u16::MAX {
            Ok(n as u16)
        } else {
            Err(PortError::OutOfRange)
        },
        JsonView::Str(s) => match port_of_text(s) {
            Some(p) => Ok(p),
            None => Err(PortError::InvalidString),
        },
        _ => Err(PortError::Unsupported),
    }
}

/// A longer run of digits spells no smaller a number than its beginning.
pub proof fn lemma_decimal_value_grows(digits: Seq<char>, n: int)
    requires
        all_digits(digits),
        0 <= n <= digits.len(),
    ensures
        decimal_value(digits.take(n)) <= decimal_value(digits),
    decreases digits.len() - n,
{
    if n == digits.len() {
        assert(digits.take(n) =~= digits);
    } else {
        lemma_decimal_value_grows(digits, n + 1);
        assert(digits.take(n + 1).drop_last() =~= digits.take(n));
        assert(is_digit(digits[n]));
        assert(digits.take(n + 1).last() == digits[n]);
    }
}

/// Reads the digits of `chars` from position `from` on as a port.
fn port_from_digits(chars: &Vec<char>, from: usize) -> (port: Option<u16>)
    requires
        from <= chars@.len(),
    ensures
        port == (if chars@.skip(from as int).len() > 0 && all_digits(chars@.skip(from as int))
            && decimal_value(chars@.skip(from as int)) <= u16::MAX {
            Some(decimal_value(chars@.skip(from as int)) as u16)
        } else {
            None::<u16>
        }),
{
    let ghost digits = chars@.skip(from as int);
    if from == chars.len() {
        return None;
    }
    let mut value: u32 = 0;
    let mut i: usize = from;
    while i < chars.len()
        invariant
            from <= i <= chars@.len(),
            digits == chars@.skip(from as int),
            all_digits(digits.take(i - from)),
            value == decimal_value(digits.take(i - from)),
            value <= u16::MAX,
        decreases chars@.len() - i,
    {
        let c = chars[i];
        proof {
            assert(digits[i - from] == c);
            assert(digits.take(i - from + 1).drop_last() =~= digits.take(i - from));
            assert(digits.take(i - from + 1).last() == c);
        }
        if !('0' <= c && c <= '9') {
            assert(!all_digits(digits));
            return None;
        }
        let d: u32 = c as u32 - '0' as u32;
        value = value * 10 + d;
        if value > 65535 {
            proof {
                if all_digits(digits) {
                    lemma_decimal_value_grows(digits, i - from + 1);
                }
            }
            return None;
        }
        i += 1;
        assert(all_digits(digits.take(i - from))) by {
            assert forall|j: int| 0 <= j < digits.take(i - from).len() implies is_digit(
                #[trigger] digits.take(i - from)[j],
            ) by {
                if j < i - from - 1 {
                    assert(digits.take(i - from)[j] == digits.take(i - from - 1)[j]);
                }
            }
        }
    }
    assert(digits.take(i - from) =~= digits);
    Some(value as u16)
}

/// Reads a decimal text as a port: an optional `+`, then digits only, with a
/// value of at most 65535.
pub fn parse_port_text(text: &str) -> (port: Option<u16>)
    ensures
        port == port_of_text(text@),
{
    let chars = chars_of(text);
    if chars.len() > 0 && chars[0] == '+' {
        port_from_digits(&chars, 1)
    } else {
        assert(chars@.skip(0) =~= chars@);
        port_from_digits(&chars, 0)
    }
}

/// Reads a port from a JSON value: an integer in 0..=65535, or a string that
/// spells one in decimal.
pub fn parse_port_value(v: &Json) -> (port: Result<u16, PortError>)
    ensures
        port == port_of(v@),
{
    match v {
        Json::PosInt(n) => {
            if *n <= 65535 {
                Ok(*n as u16)
            } else {
                Err(PortError::OutOfRange)
            }
        },
        Json::NegInt(n) => {
            if 0 <= *n && *n <= 65535 {
                Ok(*n as u16)
            } else {
                Err(PortError::OutOfRange)
            }
        },
        Json::Str(s) => {
            match parse_port_text(s.as_str()) {
                Some(p) => Ok(p),
                None => Err(PortError::InvalidString),
            }
        },
        _ => Err(PortError::Unsupported),
    }
}

} // verus!
