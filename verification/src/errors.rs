//! The reasons why a SEDOL candidate is rejected.

use vstd::prelude::*;
use vstd::string::StringExecFns;

use crate::push_char;

verus! {

/// A validation failure, one variant per rule of the validator, each carrying
/// what is needed to explain the rejection.
#[derive(Debug, PartialEq, Eq, Structural)]
pub enum SedolError {
    /// A character outside the SEDOL alphabet was found; carries the first
    /// offending character.
    InvalidCharacter {
        /// The first character of the input that is not in the alphabet.
        character: char,
    },
    /// The input is not exactly seven characters long.
    InvalidLength,
    /// The input starts with a digit but is not all digits; legacy SEDOLs
    /// are all-numeric, and mixed identifiers never start with a digit.
    InvalidOldFormat,
    /// The last character differs from the computed check digit; carries
    /// both the supplied and the computed digit.
    InvalidCheckDigit {
        /// The check digit found at the end of the input.
        got_check_digit: char,
        /// The check digit computed from the first six characters.
        calc_check_digit: char,
    },
}

impl SedolError {
    /// The human-readable message for this error, as a character sequence.
    pub open spec fn spec_message(&self) -> Seq<char> {
        match self {
            SedolError::InvalidCharacter { character } => "invalid character "@ + seq![
                *character,
            ],
            SedolError::InvalidLength => "invalid length, expected 7"@,
            SedolError::InvalidOldFormat => {
                "invalid format, expected all digits when first char is digit"@
            },
            SedolError::InvalidCheckDigit { got_check_digit, calc_check_digit } => {
                "invalid check digit "@ + seq![*got_check_digit] + ", expected "@ + seq![
                    *calc_check_digit,
                ]
            },
        }
    }

    /// Render the error as its human-readable message.
    pub fn message(&self) -> (r: String)
        ensures
            r@ == self.spec_message(),
    {
        match self {
            SedolError::InvalidCharacter { character } => {
                let mut m = "invalid character ".to_owned();
                push_char(&mut m, *character);
                proof {
                    assert(m@ =~= "invalid character "@ + seq![*character]);
                }
                m
            },
            SedolError::InvalidLength => "invalid length, expected 7".to_owned(),
            SedolError::InvalidOldFormat => {
                "invalid format, expected all digits when first char is digit".to_owned()
            },
            SedolError::InvalidCheckDigit { got_check_digit, calc_check_digit } => {
                let mut m = "invalid check digit ".to_owned();
                push_char(&mut m, *got_check_digit);
                m.append(", expected ");
                push_char(&mut m, *calc_check_digit);
                proof {
                    assert(m@ =~= "invalid check digit "@ + seq![*got_check_digit] + ", expected "@
                        + seq![*calc_check_digit]);
                }
                m
            },
        }
    }
}

} // verus!
