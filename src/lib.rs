//! Checks the country-specific part of an IBAN against the per-country formats
//! of the IBAN registry.
//!
//! Each country of the table has a pattern for the first two characters of an
//! address (its code) and a pattern for the rest (the check digits and the
//! BBAN). A pattern is a list of runs of digits, uppercase letters or either.
//! [`validate_iban_country`] finds the country of an address and checks the
//! rest against that country's pattern.
use vstd::prelude::*;

pub mod classify;
pub mod countries;
pub mod pattern;

pub use classify::{FormatTable, IbanCountryResult, validate_iban_country};

verus! {

} // verus!
