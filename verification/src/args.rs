//! The options of a run.

use vstd::prelude::*;
use std::path::PathBuf;
use crate::save_strategy::SavingType;

verus! {

/// `std::path::PathBuf`, an owned file path.
#[verifier::external_type_specification]
#[verifier::external_body]
pub struct ExPathBuf(PathBuf);

/// What a run is told: where to read and write, how the input columns are
/// named, and how to process them.
pub struct Args {
    /// Input CSV file path
    pub input: PathBuf,
    /// Column name for Date
    pub date_column: String,
    /// Date format string (e.g., "%d/%m/%Y" for DD/MM/YYYY)
    pub date_format: String,
    /// Column name for Battalion
    pub battalion_column: String,
    /// Column name for Platoon
    pub platoon_column: String,
    /// Column name for Company
    pub company_column: String,
    /// Column name for Latitude
    pub latitude_column: String,
    /// Column name for Longitude
    pub longitude_column: String,
    /// Host name for API
    pub host: String,
    /// Output file path
    pub output: PathBuf,
    /// Output format
    pub output_format: SavingType,
    /// Hashing salt
    pub salt: String,
    /// Number of points to add when discretizing between each pair of original points
    pub discretization_points: usize,
    /// Enable verbose debugging for all requests
    pub debug_verbose: bool,
    /// Enable debugging only for errors
    pub debug_on_error: bool,
    /// Mapping file path for original to hashed values
    pub mapping_output: PathBuf,
}

} // verus!
