//! Which version of each server is installed.
use vstd::prelude::*;

verus! {

/// The stored row of a server.
#[derive(Debug, Clone)]
pub struct Server {
    pub key: String,
    pub version: Option<String>,
}

/// The version that a looked-up row names.
pub open spec fn version_in(row: Option<Server>) -> Option<String> {
    match row {
        Some(s) => s.version,
        None => None,
    }
}

/// The version that a looked-up row names.
pub fn current_version(row: Option<Server>) -> (r: Option<String>)
    ensures
        r == version_in(row),
{
    match row {
        Some(s) => s.version,
        None => None,
    }
}

/// A version is installed exactly where there is a row that names one.
pub proof fn law_installed_version(row: Option<Server>)
    ensures
        version_in(row) is Some <==> row is Some && row->0.version is Some,
        row matches Some(s) ==> version_in(row) == s.version,
{
}

} // verus!
