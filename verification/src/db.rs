//! Placeholder local database handle.

use vstd::prelude::*;

verus! {

#[derive(Debug)]
pub enum DbError {
    Io(String),
}

impl DbError {
    pub fn message(&self) -> (r: String)
        ensures
            (match self {
                DbError::Io(s) => r@ == "io error: "@ + s@,
            }),
    {
        match self {
            DbError::Io(s) => {
                let mut m = "io error: ".to_owned();
                vstd::string::StringExecFns::append(&mut m, s.as_str());
                m
            },
        }
    }
}

/// Where the database keeps its data.
pub struct LocalDbConfig {
    pub data_dir: String,
}

impl LocalDbConfig {
    pub fn new(data_dir: String) -> (r: LocalDbConfig)
        ensures
            r.data_dir@ == data_dir@,
    {
        LocalDbConfig { data_dir }
    }
}

/// A not-yet-backed local database handle.
pub struct LocalDb {
    config: LocalDbConfig,
}

impl LocalDb {
    pub closed spec fn spec_config(&self) -> LocalDbConfig {
        self.config
    }

    pub fn new(config: LocalDbConfig) -> (r: LocalDb)
        ensures
            r.spec_config() == config,
    {
        LocalDb { config }
    }

    /// Prepares the database; the current placeholder cannot fail.
    pub fn init(&self) -> (r: Result<(), DbError>)
        ensures
            r.is_ok(),
    {
        Ok(())
    }
}

} // verus!
