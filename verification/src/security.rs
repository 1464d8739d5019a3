//! Credentials.

pub mod credential_manager;

pub use credential_manager::{CredentialError, CredentialKey, CredentialManager};
