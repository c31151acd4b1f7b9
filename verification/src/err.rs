use vstd::prelude::*;

verus! {

/// Why a run aborted.  Every parsing, addressing, numeric or hardware
/// failure is fatal: the dispatcher stops at the first fault and reports it.
#[derive(Clone, Copy, PartialEq, Eq, Structural, Debug)]
pub enum ErrorKind {
    /// A numeric literal was expected but the next character is neither a
    /// digit nor a decimal point.
    MalformedNumber,
    /// The accumulated literal text does not denote a value of the expected
    /// type (several decimal points, no digits, out of range, or a value
    /// too large for the exact numeric representation).
    NumberParseError,
    /// The script ended where an operand character was still owed; a
    /// numeric literal must be followed by at least one more character.
    UnexpectedEndOfInput,
    /// A register reference started with a type tag other than `r` or `f`.
    InvalidRegisterType,
    /// A register reference carried a digit outside `1..4`.
    InvalidRegisterNumber,
    /// A register identifier outside the fixed set was used directly.
    InvalidRegister,
    /// The hardware adapter could not open or claim a pin.
    PinUnavailable,
    /// The hardware adapter could not configure a PWM channel.
    PwmUnavailable,
    /// An exact rational intermediate grew past the representable range.
    NumericOverflow,
}

/// A fatal fault: its kind and the 1-based character index nearest it.
/// A fault at the end of the script carries the script's length — the
/// index of its last character — and a fault outside any run carries 0.
#[derive(Clone, Copy, PartialEq, Eq, Structural, Debug)]
pub struct RunError {
    pub kind: ErrorKind,
    pub at: usize,
}

impl RunError {
    /// A short description of the kind of fault.
    pub fn description(&self) -> &'static str {
        match self.kind {
            ErrorKind::MalformedNumber => "a numeric literal was expected",
            ErrorKind::NumberParseError => "the literal does not denote a usable number",
            ErrorKind::UnexpectedEndOfInput => "the script ended while an operand was owed",
            ErrorKind::InvalidRegisterType => "a register type tag other than 'r' or 'f'",
            ErrorKind::InvalidRegisterNumber => "a register digit outside 1..4",
            ErrorKind::InvalidRegister => "a register identifier outside the fixed set",
            ErrorKind::PinUnavailable => "the pin could not be opened or claimed",
            ErrorKind::PwmUnavailable => "the PWM channel could not be configured",
            ErrorKind::NumericOverflow => "an exact intermediate grew past the representable range",
        }
    }

    /// A human-readable message naming the fault and the 1-based character
    /// index nearest it.
    pub fn message(&self) -> String {
        fmt_message(self.description(), self.at)
    }
}

/// Relies on the `format!` macro of std to join a description and a
/// 1-based position into one line of text.
#[verifier::external_body]
fn fmt_message(what: &str, at: usize) -> String {
    format!("{what} (character {at})")
}

} // verus!
