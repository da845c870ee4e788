//! Request URLs of the weather API.

use vstd::prelude::*;
use vstd::string::*;

verus! {

/// Prefix of the endpoint that describes a geographic point.
pub const POINTS_ENDPOINT: &'static str = "https://api.weather.gov/points/";

/// What [`get_points_url`] returns for a coordinate pair given as text.
pub open spec fn points_url(latlong: Seq<char>) -> Seq<char> {
    if latlong.len() == 0 {
        Seq::empty()
    } else {
        POINTS_ENDPOINT@ + latlong
    }
}

/// The URL that describes the point `latlong` ("latitude,longitude"), or the
/// empty string when no point is given.
pub fn get_points_url(latlong: &str) -> (url: String)
    ensures
        url@ == points_url(latlong@),
{
    if latlong.is_empty() {
        String::new()
    } else {
        String::from_str(POINTS_ENDPOINT).concat(latlong)
    }
}

} // verus!
