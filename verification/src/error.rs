//! Why an image has no preimage.

use vstd::prelude::*;
use vstd::string::StringExecFns;

verus! {

/// The reason why no magic value was recovered from an image.
#[derive(Debug, Clone, PartialEq, Eq)]
pub enum ReverseMagicError {
    /// The image has fewer than 4 characters, given here: too few for four bytes.
    TooShort(u8),
    /// The text given here was read as a code and stands for no byte.
    BadCode(String),
    /// The image has more than 8 characters, given here: too many for four bytes.
    TooLong(usize),
    /// The image has 5 to 7 characters, given here, and no rule recovers a value from it.
    Unimplemented(usize),
}

/// What a `ReverseMagicError` says, over mathematical values.
pub enum Failure {
    TooShort(nat),
    BadCode(Seq<char>),
    TooLong(nat),
    Unimplemented(nat),
}

impl View for ReverseMagicError {
    type V = Failure;

    open spec fn view(&self) -> Failure {
        match self {
            ReverseMagicError::TooShort(len) => Failure::TooShort(*len as nat),
            ReverseMagicError::BadCode(code) => Failure::BadCode(code@),
            ReverseMagicError::TooLong(len) => Failure::TooLong(*len as nat),
            ReverseMagicError::Unimplemented(len) => Failure::Unimplemented(*len as nat),
        }
    }
}

/// The result of an operation that may fail with a `ReverseMagicError`, over mathematical values.
pub open spec fn outcome<T>(r: Result<T, ReverseMagicError>) -> Result<T, Failure> {
    match r {
        Ok(value) => Ok(value),
        Err(e) => Err(e@),
    }
}

/// The decimal digit for a value below 10.
pub open spec fn decimal_digit(n: nat) -> char {
    ('0' as int + n) as char
}

/// `n` written in base 10, without leading zeros.
pub open spec fn decimal(n: nat) -> Seq<char>
    decreases n,
{
    if n < 10 {
        seq![decimal_digit(n)]
    } else {
        decimal(n / 10).push(decimal_digit(n % 10))
    }
}

/// The sentence that describes a failure to a reader.
pub open spec fn message_of(failure: Failure) -> Seq<char> {
    match failure {
        Failure::TooShort(len) => "input too short ("@ + decimal(len)
            + ") for solution to exist"@,
        Failure::TooLong(len) => "input too long ("@ + decimal(len)
            + ") for solution to exist"@,
        Failure::BadCode(code) => "irreversible token `"@ + code + "`"@,
        Failure::Unimplemented(len) => if len == 5 {
            "arbitrary 5-byte reverse-magic logic is incomplete"@
        } else {
            "reverse-magic not implemented for ambiguous sequences"@
        },
    }
}

/// Appends `n`, written in base 10, to `text`.
fn push_decimal(text: &mut String, n: usize)
    ensures
        final(text)@ == old(text)@ + decimal(n as nat),
    decreases n,
{
    if n >= 10 {
        push_decimal(text, n / 10);
    }
    let digit: u8 = (n % 10) as u8;
    text.push((0x30 + digit) as char);
}

impl ReverseMagicError {
    /// The sentence that describes this error to a reader. It holds the length that was
    /// refused, or the code that was.
    pub fn message(&self) -> (text: String)
        ensures
            text@ == message_of(self@),
    {
        match self {
            ReverseMagicError::TooShort(len) => {
                let mut text: String = String::from_str("input too short (");
                push_decimal(&mut text, *len as usize);
                text.append(") for solution to exist");
                text
            },
            ReverseMagicError::TooLong(len) => {
                let mut text: String = String::from_str("input too long (");
                push_decimal(&mut text, *len);
                text.append(") for solution to exist");
                text
            },
            ReverseMagicError::BadCode(code) => {
                let mut text: String = String::from_str("irreversible token `");
                text.append(code.as_str());
                text.append("`");
                text
            },
            ReverseMagicError::Unimplemented(len) => {
                if *len == 5 {
                    String::from_str("arbitrary 5-byte reverse-magic logic is incomplete")
                } else {
                    String::from_str("reverse-magic not implemented for ambiguous sequences")
                }
            },
        }
    }
}

} // verus!
