use vstd::prelude::*;
use vstd::string::StringExecFns;

verus! {

/// A unit token that belongs to none of the recognized aliases of its
/// domain; it carries the raw token as given.
#[derive(Debug)]
pub enum UnsupportedUnitError {
    Length(String),
    Time(String),
    Energy(String),
}

impl UnsupportedUnitError {
    pub open spec fn message_spec(&self) -> Seq<char> {
        match self {
            UnsupportedUnitError::Length(t) => "Unsupported length unit: "@ + t@,
            UnsupportedUnitError::Time(t) => "Unsupported time unit: "@ + t@,
            UnsupportedUnitError::Energy(t) => "Unsupported energy unit: "@ + t@,
        }
    }

    /// The human-readable cause, to be printed after an `Error: ` prefix.
    pub fn message(&self) -> (r: String)
        ensures
            r@ == self.message_spec(),
    {
        match self {
            UnsupportedUnitError::Length(t) => {
                let mut s = String::from_str("Unsupported length unit: ");
                s.append(t.as_str());
                s
            },
            UnsupportedUnitError::Time(t) => {
                let mut s = String::from_str("Unsupported time unit: ");
                s.append(t.as_str());
                s
            },
            UnsupportedUnitError::Energy(t) => {
                let mut s = String::from_str("Unsupported energy unit: ");
                s.append(t.as_str());
                s
            },
        }
    }
}

/// A zero divisor in the energy formula: the time squared, or (reported
/// only for nonzero time) the length squared.
#[derive(Clone, Copy, PartialEq, Eq, Structural, Debug)]
pub enum DivideByZeroError {
    LengthIsZero,
    TimeIsZero,
}

impl DivideByZeroError {
    pub open spec fn message_spec(&self) -> Seq<char> {
        match self {
            DivideByZeroError::LengthIsZero => "Length is zero, cannot divide by zero"@,
            DivideByZeroError::TimeIsZero => "Time is zero, cannot divide by zero"@,
        }
    }

    /// The human-readable cause, to be printed after an `Error: ` prefix.
    pub fn message(&self) -> (r: String)
        ensures
            r@ == self.message_spec(),
    {
        match self {
            DivideByZeroError::LengthIsZero => String::from_str(
                "Length is zero, cannot divide by zero",
            ),
            DivideByZeroError::TimeIsZero => String::from_str(
                "Time is zero, cannot divide by zero",
            ),
        }
    }
}

/// A magnitude token that is not a signed decimal number; it carries the
/// raw token as given.
#[derive(Debug)]
pub struct InvalidNumberError {
    pub token: String,
}

impl InvalidNumberError {
    pub open spec fn message_spec(&self) -> Seq<char> {
        "Invalid number: "@ + self.token@
    }

    /// The human-readable cause, to be printed after an `Error: ` prefix.
    pub fn message(&self) -> (r: String)
        ensures
            r@ == self.message_spec(),
    {
        let mut s = String::from_str("Invalid number: ");
        s.append(self.token.as_str());
        s
    }
}

/// Any failure of the pipeline, in the taxonomy the calculator reports:
/// an unsupported unit token, an unparsable magnitude, or a zero divisor.
#[derive(Debug)]
pub enum TofError {
    UnsupportedUnit(UnsupportedUnitError),
    InvalidNumber(InvalidNumberError),
    DivideByZero(DivideByZeroError),
}

impl TofError {
    pub open spec fn message_spec(&self) -> Seq<char> {
        match self {
            TofError::UnsupportedUnit(e) => e.message_spec(),
            TofError::InvalidNumber(e) => e.message_spec(),
            TofError::DivideByZero(e) => e.message_spec(),
        }
    }

    /// The human-readable cause, to be printed after an `Error: ` prefix.
    pub fn message(&self) -> (r: String)
        ensures
            r@ == self.message_spec(),
    {
        match self {
            TofError::UnsupportedUnit(e) => e.message(),
            TofError::InvalidNumber(e) => e.message(),
            TofError::DivideByZero(e) => e.message(),
        }
    }
}

} // verus!
