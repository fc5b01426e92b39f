//! Process-wide configuration, constructed once at startup and passed
//! explicitly into the token service and the stores.

use vstd::prelude::*;

verus! {

/// Immutable service configuration. `jwt_max_age` is the token lifetime in
/// minutes.
#[derive(Debug)]
pub struct Config {
    pub database_url: String,
    pub jwt_secret: String,
    pub jwt_expires_in: String,
    pub jwt_max_age: i64,
    pub host: String,
    pub port: u16,
}

} // verus!
