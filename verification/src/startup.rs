//! Why the service could not start.
use vstd::prelude::*;

use crate::config::ConfigError;

verus! {

/// A failure while starting the service.
#[derive(Debug)]
pub enum StartupError {
    Configuration(ConfigError),
    DatabaseConfiguration,
    DatabaseInitialization,
    DatabaseMigration,
    Bind,
    Serve,
}

impl StartupError {
    /// A stable name of the failure, for logs.
    pub fn kind(&self) -> (r: &'static str)
        ensures
            r@ == (match self {
                StartupError::Configuration(_) => "configuration"@,
                StartupError::DatabaseConfiguration => "database_configuration"@,
                StartupError::DatabaseInitialization => "database_initialization"@,
                StartupError::DatabaseMigration => "database_migration"@,
                StartupError::Bind => "bind"@,
                StartupError::Serve => "serve"@,
            }),
    {
        match self {
            StartupError::Configuration(_) => "configuration",
            StartupError::DatabaseConfiguration => "database_configuration",
            StartupError::DatabaseInitialization => "database_initialization",
            StartupError::DatabaseMigration => "database_migration",
            StartupError::Bind => "bind",
            StartupError::Serve => "serve",
        }
    }
}

} // verus!
