//! The error type shared by every stage.

use vstd::prelude::*;
use vstd::string::*;

verus! {

/// Why a batch could not be processed. Each payload is the message of the
/// failure that was met.
#[derive(Clone, Debug, PartialEq, Eq)]
pub enum GeomError {
    /// A tabular file could not be read or written.
    CsvError(String),
    /// The elevation service could not be reached.
    ReqwestError(String),
    /// A file operation failed.
    IoError(String),
    /// A coordinate is not a number.
    ParseFloatError(String),
    /// A point sequence does not have the length that its stage promises.
    ShapeError(String),
    /// A configured column is missing from the header row.
    ColumnNotFound,
    /// A date does not match the configured format.
    ChronoParseError(String),
    /// A path could not be densified.
    DiscretizationError(String),
    /// An elevation lookup failed.
    ElevationFetchError(String),
    /// The cryptographic backend failed.
    OpenSslError(String),
}

impl GeomError {
    /// The text that introduces the payload in `message`.
    pub open spec fn prefix(self) -> Seq<char> {
        match self {
            GeomError::CsvError(_) => "CSV error: "@,
            GeomError::ReqwestError(_) => "Reqwest error: "@,
            GeomError::IoError(_) => "IO error: "@,
            GeomError::ParseFloatError(_) => "Parse float error: "@,
            GeomError::ShapeError(_) => "Shape error: "@,
            GeomError::ColumnNotFound => "Column not found"@,
            GeomError::ChronoParseError(_) => "Chrono parse error: "@,
            GeomError::DiscretizationError(_) => "Discretization error: "@,
            GeomError::ElevationFetchError(_) => "Elevation fetch error: "@,
            GeomError::OpenSslError(_) => "OpenSSL error: "@,
        }
    }

    /// The payload, empty for a variant that carries none.
    pub open spec fn detail(self) -> Seq<char> {
        match self {
            GeomError::CsvError(m) => m@,
            GeomError::ReqwestError(m) => m@,
            GeomError::IoError(m) => m@,
            GeomError::ParseFloatError(m) => m@,
            GeomError::ShapeError(m) => m@,
            GeomError::ColumnNotFound => Seq::empty(),
            GeomError::ChronoParseError(m) => m@,
            GeomError::DiscretizationError(m) => m@,
            GeomError::ElevationFetchError(m) => m@,
            GeomError::OpenSslError(m) => m@,
        }
    }

    /// The error as one line of text: the variant's prefix, then its payload.
    pub fn message(&self) -> (text: String)
        ensures
            text@ == self.prefix() + self.detail(),
    {
        let (head, tail): (&str, &str) = match self {
            GeomError::CsvError(m) => ("CSV error: ", m.as_str()),
            GeomError::ReqwestError(m) => ("Reqwest error: ", m.as_str()),
            GeomError::IoError(m) => ("IO error: ", m.as_str()),
            GeomError::ParseFloatError(m) => ("Parse float error: ", m.as_str()),
            GeomError::ShapeError(m) => ("Shape error: ", m.as_str()),
            GeomError::ColumnNotFound => ("Column not found", ""),
            GeomError::ChronoParseError(m) => ("Chrono parse error: ", m.as_str()),
            GeomError::DiscretizationError(m) => ("Discretization error: ", m.as_str()),
            GeomError::ElevationFetchError(m) => ("Elevation fetch error: ", m.as_str()),
            GeomError::OpenSslError(m) => ("OpenSSL error: ", m.as_str()),
        };
        proof {
            reveal_strlit("");
        }
        String::from_str(head).concat(tail)
    }
}

} // verus!
