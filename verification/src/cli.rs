//! The program's command-line surface: its one argument.

use vstd::prelude::*;

verus! {

/// Declares `std::path::PathBuf` so that verified code can carry a
/// path through; Verus sees nothing inside a value of it, and only the
/// unverified shell around the library ever opens the file it names.
#[verifier::external_type_specification]
#[verifier::external_body]
pub struct ExPathBuf(std::path::PathBuf);

/// Processes the transactions found in a CSV file and summarizes the
/// end state of the accounts found therein.
#[derive(Debug)]
pub struct Moneybags {
    /// The path to a CSV file containing transaction records.
    pub csv_file: std::path::PathBuf,
}

} // verus!
