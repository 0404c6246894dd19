//! Plugin repositories: the registries plugins come from, and what is read from them.

pub mod modrinth;
pub mod registry;

use vstd::prelude::*;

pub use registry::Registry;

verus! {

#[verifier::external_type_specification]
#[verifier::external_body]
pub struct ExReqwestError(reqwest::Error);

#[verifier::external_type_specification]
#[verifier::external_body]
pub struct ExHttpClient(reqwest::Client);

/// Creates the repository for a registry.
pub struct PluginRepositoryFactory;

/// A plugin found by a search.
#[derive(Debug)]
pub struct SearchResult {
    /// Unique identifier for this plugin
    pub id: String,
    /// Title or name of the project
    pub name: String,
}

/// What to download to install a plugin.
#[derive(Debug)]
pub struct PluginArtifact {
    /// Registry the plugin was downloaded from
    pub registry: Registry,
    /// Unique identifier of the plugin
    pub id: String,
    /// Version downloaded
    pub version: String,
    /// Link to the plugin JAR
    pub download_url: String,
}

/// What can go wrong while working with a plugin repository.
#[derive(Debug)]
pub enum RepositoryError {
    /// Failed to send request
    Request { source: reqwest::Error },
    /// Failed to parse response
    Parse { source: reqwest::Error },
    /// Resource not found
    NotFound,
    /// Custom error message
    Custom(String),
}

impl RepositoryError {
    /// What went wrong, in words.
    pub fn message(&self) -> (text: &str)
        ensures
            text@ == match *self {
                RepositoryError::Request { .. } => "failed to send request to plugin repository"@,
                RepositoryError::Parse { .. } => "failed to parse response from plugin repository"@,
                RepositoryError::NotFound => "resource not found"@,
                RepositoryError::Custom(message) => message@,
            },
    {
        match self {
            RepositoryError::Request { .. } => "failed to send request to plugin repository",
            RepositoryError::Parse { .. } => "failed to parse response from plugin repository",
            RepositoryError::NotFound => "resource not found",
            RepositoryError::Custom(message) => message.as_str(),
        }
    }
}

} // verus!
