//! The error that the application reports at its top level.

use crate::security::credential_manager::CredentialError;
use crate::services::cache_service::CacheError;
use crate::text::owned;
use vstd::prelude::*;
use vstd::std_specs::convert::FromSpecImpl;
use vstd::string::*;

verus! {

/// The error of input and output, `std::io::Error`. Its inside is hidden: it is
/// carried, and written as text for a message.
#[verifier::external_type_specification]
#[verifier::external_body]
pub struct ExIoError(std::io::Error);

/// Writes an input/output error as text with `ToString::to_string`. Trusted:
/// nothing is claimed of the text.
#[verifier::external_body]
fn io_error_text(error: &std::io::Error) -> (r: String) {
    error.to_string()
}

/// An error of any part of the application.
#[derive(Debug)]
pub enum CockpitError {
    Security(CredentialError),
    Cache(CacheError),
    Config(String),
    Integration(String),
    Service(String),
    Io(std::io::Error),
    Serialization(String),
}

impl CockpitError {
    /// The message of the error. For an input/output error the message ends with
    /// the text of that error, whatever it is.
    pub fn to_string(&self) -> (r: String)
        ensures
            match *self {
                CockpitError::Security(e) => r@ == "Security error: "@ + e.message(),
                CockpitError::Cache(e) => r@ == "Cache error: "@ + e.message(),
                CockpitError::Config(m) => r@ == "Configuration error: "@ + m@,
                CockpitError::Integration(m) => r@ == "Integration error: "@ + m@,
                CockpitError::Service(m) => r@ == "Service error: "@ + m@,
                CockpitError::Io(e) => exists|inner: String|
                    #![trigger inner@]
                    r@ == "IO error: "@ + inner@,
                CockpitError::Serialization(m) => r@ == "Serialization error: "@ + m@,
            },
    {
        match self {
            CockpitError::Security(e) => {
                let inner = e.to_string();
                owned("Security error: ").concat(inner.as_str())
            },
            CockpitError::Cache(e) => {
                let inner = e.to_string();
                owned("Cache error: ").concat(inner.as_str())
            },
            CockpitError::Config(m) => owned("Configuration error: ").concat(m.as_str()),
            CockpitError::Integration(m) => owned("Integration error: ").concat(m.as_str()),
            CockpitError::Service(m) => owned("Service error: ").concat(m.as_str()),
            CockpitError::Io(e) => {
                let inner = io_error_text(e);
                owned("IO error: ").concat(inner.as_str())
            },
            CockpitError::Serialization(m) => owned("Serialization error: ").concat(m.as_str()),
        }
    }
}

impl From<CredentialError> for CockpitError {
    fn from(error: CredentialError) -> (r: Self) {
        CockpitError::Security(error)
    }
}

impl FromSpecImpl<CredentialError> for CockpitError {
    open spec fn obeys_from_spec() -> bool {
        true
    }

    open spec fn from_spec(error: CredentialError) -> Self {
        CockpitError::Security(error)
    }
}

impl From<CacheError> for CockpitError {
    fn from(error: CacheError) -> (r: Self) {
        CockpitError::Cache(error)
    }
}

impl FromSpecImpl<CacheError> for CockpitError {
    open spec fn obeys_from_spec() -> bool {
        true
    }

    open spec fn from_spec(error: CacheError) -> Self {
        CockpitError::Cache(error)
    }
}

impl From<std::io::Error> for CockpitError {
    fn from(error: std::io::Error) -> (r: Self) {
        CockpitError::Io(error)
    }
}

impl FromSpecImpl<std::io::Error> for CockpitError {
    open spec fn obeys_from_spec() -> bool {
        true
    }

    open spec fn from_spec(error: std::io::Error) -> Self {
        CockpitError::Io(error)
    }
}

} // verus!
