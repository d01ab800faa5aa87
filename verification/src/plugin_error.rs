//! Error types for the plugin system.

use vstd::prelude::*;

verus! {

/// The I/O error of std, carried as it is.
#[verifier::external_type_specification]
#[verifier::external_body]
pub struct ExIoError(std::io::Error);

/// The TOML parse error of the `toml` crate, carried as it is.
#[verifier::external_type_specification]
#[verifier::external_body]
pub struct ExTomlDeError(toml::de::Error);

/// The JSON error of the `serde_json` crate, carried as it is.
#[verifier::external_type_specification]
#[verifier::external_body]
pub struct ExJsonError(serde_json::Error);

/// Errors that can occur in the plugin system.
#[derive(Debug)]
#[non_exhaustive]
pub enum PluginError {
    /// Failed to read plugin manifest or WASM file.
    Io(std::io::Error),
    /// Plugin manifest TOML parsing error.
    ManifestParse(toml::de::Error),
    /// Plugin manifest validation error.
    ManifestValidation(String),
    /// WASM compilation or instantiation error.
    Runtime(String),
    /// Error calling a plugin-exported function.
    Call(String),
    /// Plugin returned invalid data.
    InvalidResponse(String),
    /// Plugin not found.
    NotFound(String),
    /// Plugin is not loaded or has been unloaded.
    NotLoaded(String),
    /// JSON serialization/deserialization error.
    Json(serde_json::Error),
    /// Plugin directory does not exist.
    DirNotFound(String),
    /// Failed to spawn a plugin worker thread.
    ThreadSpawn(std::io::Error),
}

} // verus!
