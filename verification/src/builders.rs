//! Builders for the two server applications: the settings they collect
//! before the surrounding program opens its connections.

use vstd::prelude::*;

verus! {

/// Settings of the CRUD server.
#[derive(Debug)]
pub struct CrudAppBuilder {
    pub database_url: String,
    pub max_connections: u32,
    pub tenants_config_path: Option<String>,
}

impl CrudAppBuilder {
    /// Start from a connection string and an optional tenants config
    /// path, with the default connection limit.
    pub fn new(database_url: String, tenants_config_path: Option<String>) -> (r: Self)
        ensures
            r.database_url == database_url,
            r.max_connections == 5,
            r.tenants_config_path == tenants_config_path,
    {
        CrudAppBuilder { database_url, max_connections: 5, tenants_config_path }
    }

    /// Override the maximum number of database connections.
    pub fn max_connections(self, max: u32) -> (r: Self)
        ensures
            r.max_connections == max,
            r.database_url == self.database_url,
            r.tenants_config_path == self.tenants_config_path,
    {
        CrudAppBuilder {
            database_url: self.database_url,
            max_connections: max,
            tenants_config_path: self.tenants_config_path,
        }
    }
}

/// Settings of the redirect server.
#[derive(Debug)]
pub struct RedirectAppBuilder {
    pub database_url_ro: String,
    pub max_connections: u32,
}

impl RedirectAppBuilder {
    /// Start from the read-only connection string, with the default
    /// connection limit.
    pub fn new(database_url_ro: String) -> (r: Self)
        ensures
            r.database_url_ro == database_url_ro,
            r.max_connections == 5,
    {
        RedirectAppBuilder { database_url_ro, max_connections: 5 }
    }

    /// Override the maximum number of database connections.
    pub fn max_connections(self, max: u32) -> (r: Self)
        ensures
            r.max_connections == max,
            r.database_url_ro == self.database_url_ro,
    {
        RedirectAppBuilder { database_url_ro: self.database_url_ro, max_connections: max }
    }
}

} // verus!
