//! The error type and the separator enum shared by the whole pipeline.

use vstd::prelude::*;
use vstd::string::*;

verus! {

/// Why an input string could not be turned into an identifier: it did not
/// match the grammar, or its digits do not name a real calendar date.
#[derive(Debug)]
pub enum PersonnummerError {
    InvalidInput,
    InvalidDate,
}

impl PersonnummerError {
    /// A short human-readable description of the error.
    pub fn message(&self) -> (r: String)
        ensures
            self is InvalidInput ==> r@ == "Invalid format"@,
            self is InvalidDate ==> r@ == "Invalid date"@,
    {
        match self {
            PersonnummerError::InvalidInput => String::from_str("Invalid format"),
            PersonnummerError::InvalidDate => String::from_str("Invalid date"),
        }
    }
}

/// The separator between the birth-date and serial segments of the short
/// format. A plus sign indicates an age of one hundred years or more.
#[derive(Debug, Copy, Clone, PartialEq, Eq, Structural)]
pub enum Seperator {
    Plus,
    Minus,
}

/// The character each separator displays as.
pub open spec fn sep_char(s: Seperator) -> char {
    match s {
        Seperator::Plus => '+',
        Seperator::Minus => '-',
    }
}

impl Seperator {
    /// The one-character string form used by the short format.
    pub fn as_str(&self) -> (r: &'static str)
        ensures
            r@ == seq![sep_char(*self)],
    {
        match self {
            Seperator::Plus => {
                let s = "+";
                proof {
                    reveal_strlit("+");
                    assert(s@ =~= seq![sep_char(Seperator::Plus)]);
                }
                s
            },
            Seperator::Minus => {
                let s = "-";
                proof {
                    reveal_strlit("-");
                    assert(s@ =~= seq![sep_char(Seperator::Minus)]);
                }
                s
            },
        }
    }

    /// The separator a one-character string denotes, if any.
    pub fn from_str(s: &str) -> (r: Result<Seperator, PersonnummerError>)
        ensures
            s@ == seq!['-'] ==> r == Ok::<Seperator, PersonnummerError>(Seperator::Minus),
            s@ == seq!['+'] ==> r == Ok::<Seperator, PersonnummerError>(Seperator::Plus),
            s@ != seq!['-'] && s@ != seq!['+'] ==> r == Err::<
                Seperator,
                PersonnummerError,
            >(PersonnummerError::InvalidInput),
    {
        if s.unicode_len() == 1 {
            let c = s.get_char(0);
            if c == '-' {
                proof {
                    assert(s@ =~= seq!['-']);
                }
                Ok(Seperator::Minus)
            } else if c == '+' {
                proof {
                    assert(s@ =~= seq!['+']);
                }
                Ok(Seperator::Plus)
            } else {
                proof {
                    assert(s@[0] != '-' && s@[0] != '+');
                }
                Err(PersonnummerError::InvalidInput)
            }
        } else {
            Err(PersonnummerError::InvalidInput)
        }
    }
}

} // verus!
