//! The relational family's connection settings.

use vstd::prelude::*;

verus! {

/// What a relational connection is opened with.
#[derive(Clone, Debug)]
pub struct OracleAdapterConfig {
    pub username: String,
    pub password: String,
    pub connect_string: String,
}

/// Opens connections to a relational backend.
#[derive(Clone, Debug)]
pub struct OracleAdapter {
    pub config: OracleAdapterConfig,
}

impl OracleAdapter {
    /// Settings for `user` with `password` on `host`.
    pub fn new(host: &str, user: &str, password: &str) -> (r: OracleAdapter)
        ensures
            r.config.username@ == user@,
            r.config.password@ == password@,
            r.config.connect_string@ == host@,
    {
        let config = OracleAdapterConfig {
            username: user.to_owned(),
            password: password.to_owned(),
            connect_string: host.to_owned(),
        };
        OracleAdapter { config }
    }
}

/// The persistence contract on a relational backend.
#[derive(Clone, Debug)]
pub struct OraclePersistence {
    pub adapter: OracleAdapter,
}

impl OraclePersistence {
    pub fn new(host: &str, user: &str, password: &str) -> (r: OraclePersistence)
        ensures
            r.adapter.config.username@ == user@,
            r.adapter.config.password@ == password@,
            r.adapter.config.connect_string@ == host@,
    {
        OraclePersistence { adapter: OracleAdapter::new(host, user, password) }
    }
}

} // verus!
