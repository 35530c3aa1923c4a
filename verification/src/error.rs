//! The error taxonomy of the library.
//!
//! Every parsing or evaluation function returns one of these kinds; nothing
//! is silently swallowed or defaulted.  The library itself never prints and
//! never panics: rendering a message and choosing an exit status is left to
//! the caller.

use vstd::prelude::*;

use crate::duration::UnitKind;

verus! {

/// What went wrong while parsing or evaluating a duration expression.
#[derive(Debug, Clone, Copy, PartialEq, Eq, Structural)]
pub enum Error {
    /// No input tokens were supplied at all.
    MissingInput,
    /// An operand group was empty after trimming (adjacent, leading or
    /// trailing operators).
    EmptyOperand,
    /// A unit term inside an operand was empty, so there was no trailing
    /// suffix character to classify it by.
    MissingSuffix,
    /// A unit term's trailing character matches none of `w`, `d`, `h`,
    /// `m`, `s`.  Carries the offending character.
    UnknownSuffix(char),
    /// The same unit appeared more than once inside one operand.
    DuplicateUnit(UnitKind),
    /// A token handed to a single-unit parser does not end in the suffix
    /// that parser expects.
    Format,
    /// A unit term's numeric prefix is missing, contains a non-digit, or
    /// does not fit the scalar type.
    Numeric,
    /// An intermediate or final second count exceeds what the evaluator's
    /// scalar types can hold.
    Overflow,
    /// The expression evaluates to a net-negative duration, which has no
    /// canonical rendering.
    Negative,
}

/// The text of each error's message.
pub open spec fn message_spec(e: Error) -> Seq<char> {
    match e {
        Error::MissingInput => "missing input"@,
        Error::EmptyOperand => "no char in substring"@,
        Error::MissingSuffix => "missing suffix"@,
        Error::UnknownSuffix(_) => "unknown duration suffix"@,
        Error::DuplicateUnit(_) => "can't set a unit twice"@,
        Error::Format => "token not ending in the expected suffix"@,
        Error::Numeric => "invalid number"@,
        Error::Overflow => "duration too large"@,
        Error::Negative => "negative duration"@,
    }
}

impl Error {
    /// A human-readable message describing the error.
    pub fn message(&self) -> (r: &'static str)
        ensures
            r@ == message_spec(*self),
    {
        match self {
            Error::MissingInput => "missing input",
            Error::EmptyOperand => "no char in substring",
            Error::MissingSuffix => "missing suffix",
            Error::UnknownSuffix(_) => "unknown duration suffix",
            Error::DuplicateUnit(_) => "can't set a unit twice",
            Error::Format => "token not ending in the expected suffix",
            Error::Numeric => "invalid number",
            Error::Overflow => "duration too large",
            Error::Negative => "negative duration",
        }
    }
}

} // verus!
