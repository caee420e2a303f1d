//! The crate's error type.

use vstd::prelude::*;

verus! {

/// Declares `config::ConfigError` so that errors of the configuration loader can be carried.
#[verifier::external_type_specification]
#[verifier::external_body]
pub struct ExConfigError(config::ConfigError);

/// Declares `std::io::Error` so that I/O errors can be carried.
#[verifier::external_type_specification]
#[verifier::external_body]
pub struct ExIoError(std::io::Error);

/// Declares `reqwest::Error` so that HTTP client errors can be carried.
#[verifier::external_type_specification]
#[verifier::external_body]
pub struct ExHttpError(reqwest::Error);

/// Declares `serde_json::Error` so that JSON errors can be carried.
#[verifier::external_type_specification]
#[verifier::external_body]
pub struct ExSerdeError(serde_json::Error);

/// Declares `rust_yaml::Error` so that YAML errors can be carried.
#[verifier::external_type_specification]
#[verifier::external_body]
pub struct ExYamlError(rust_yaml::Error);

/// Central error type.
#[derive(Debug)]
pub enum AgentError {
    ConfigError(config::ConfigError),
    IoError(std::io::Error),
    HttpError(reqwest::Error),
    SerdeError(serde_json::Error),
    YamlError(rust_yaml::Error),
    PluginError(String),
    Other(String),
}

/// What a caller can observe of an error raised by this crate's own logic.
pub enum ErrorView {
    Plugin(Seq<char>),
    Other(Seq<char>),
    Outside,
}

impl View for AgentError {
    type V = ErrorView;

    open spec fn view(&self) -> ErrorView {
        match self {
            AgentError::PluginError(m) => ErrorView::Plugin(m@),
            AgentError::Other(m) => ErrorView::Other(m@),
            _ => ErrorView::Outside,
        }
    }
}

} // verus!
