//! What the service assumes where its command line says nothing.

use vstd::prelude::*;

verus! {

/// The log directives.
pub fn default_log_filter() -> (filter: String)
    ensures
        filter@ == "info"@,
{
    "info".to_string()
}

/// The path of the database.
pub fn default_db_path() -> (path: String)
    ensures
        path@ == "benchboard.sqlite"@,
{
    "benchboard.sqlite".to_string()
}

/// The address and port that the server listens to.
pub fn default_http_addr() -> (address: String)
    ensures
        address@ == "127.0.0.1:9001"@,
{
    "127.0.0.1:9001".to_string()
}

} // verus!
