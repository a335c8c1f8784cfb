//! Parsing, validation and normalization of Swedish personal identity
//! numbers and their coordination-number variant: grammar matching, century
//! resolution against an injected current date, calendar-checked date
//! construction with coordination-day decoding, the Luhn checksum, and the
//! canonical long and short renderings.

pub mod calendar;
pub mod digits;
pub mod types;
pub mod grammar;
pub mod resolve;
pub mod checksum;
mod clock;
pub mod pnr;
pub mod laws;

pub use calendar::Date;
pub use checksum::luhn;
pub use pnr::{FormattedPersonnummer, Personnummer};
pub use types::{PersonnummerError, Seperator};
