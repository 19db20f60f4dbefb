//! What is asked of the elevation service, and what is read from its answer.

use vstd::prelude::*;
use vstd::string::*;
use crate::error::GeomError;
use crate::text::{degrees_text, write_degrees};

verus! {

/// The address that gives the elevation at a latitude and longitude, both
/// written in degrees.
pub open spec fn lookup_url_text(host: Seq<char>, latitude: int, longitude: int) -> Seq<char> {
    "http://"@ + host + "/api/v1/lookup?locations="@ + degrees_text(latitude) + seq![',']
        + degrees_text(longitude)
}

/// Writes the address to ask `host` for the elevation at a point.
pub fn lookup_url(host: &str, latitude: i64, longitude: i64) -> (url: String)
    ensures
        url@ == lookup_url_text(host@, latitude as int, longitude as int),
{
    let mut url = String::from_str("http://");
    url.append(host);
    url.append("/api/v1/lookup?locations=");
    url.append(write_degrees(latitude).as_str());
    url.append(",");
    url.append(write_degrees(longitude).as_str());
    proof {
        reveal_strlit(",");
        assert(url@ =~= lookup_url_text(host@, latitude as int, longitude as int));
    }
    url
}

/// The elevation that an answer reports: that of its first result, and zero
/// where it has no result or its first result has no elevation.
pub open spec fn reported_elevation(results: Seq<Option<i64>>) -> int {
    if results.len() > 0 && results[0] is Some {
        results[0]->Some_0 as int
    } else {
        0
    }
}

/// Reads the elevation out of the results of an answer.
pub fn elevation_of(results: &Vec<Option<i64>>) -> (elevation: i64)
    ensures
        elevation == reported_elevation(results@),
{
    if results.len() == 0 {
        return 0;
    }
    match results[0] {
        Some(elevation) => elevation,
        None => 0,
    }
}

/// The text of the error for an answer that could not be read.
pub open spec fn unreadable_text(detail: Seq<char>) -> Seq<char> {
    "Failed to parse JSON: "@ + detail
}

/// The error for an answer that could not be read, where `detail` says why.
pub fn unreadable_answer(detail: &str) -> (e: GeomError)
    ensures
        e matches GeomError::ElevationFetchError(m) && m@ == unreadable_text(detail@),
{
    let mut text = String::from_str("Failed to parse JSON: ");
    text.append(detail);
    GeomError::ElevationFetchError(text)
}

} // verus!
