use vstd::prelude::*;

verus! {

/// A fatal shape mismatch in one of the remote payloads. Per-row problems
/// in the project catalog are skipped instead and never raise this.
#[derive(Debug, Clone, Copy, PartialEq, Eq, Structural)]
pub enum SchemaError {
    /// The project list response is not an object with a `results` array.
    Catalog,
    /// The task export is not an array of well-formed task entries.
    TaskExport,
    /// The predictions response is not an array of well-formed prediction
    /// sets.
    Predictions,
}

impl SchemaError {
    /// A terminating error message, as the run reports it.
    pub fn message(&self) -> &'static str {
        match self {
            SchemaError::Catalog => "expected the projects response to be an object with a results array",
            SchemaError::TaskExport => "expected the task export to be an array of task objects",
            SchemaError::Predictions => "expected the predictions response to be an array of prediction sets",
        }
    }
}

/// A missing configuration input, reported before any network activity.
#[derive(Debug, Clone, Copy, PartialEq, Eq, Structural)]
pub enum ConfigError {
    MissingProjectNames,
    MissingHostName,
    MissingApiToken,
}

impl ConfigError {
    /// A terminating error message, as the run reports it.
    pub fn message(&self) -> &'static str {
        match self {
            ConfigError::MissingProjectNames => "please pass the project names list as either the last command line argument or as an environment variable",
            ConfigError::MissingHostName => "please pass the host name as either the last command line argument or as an environment variable",
            ConfigError::MissingApiToken => "please pass the api token as either the last command line argument or as an environment variable",
        }
    }
}

} // verus!
