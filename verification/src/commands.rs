//! What the user interface sends and receives, and the checks made on what it sends.

pub mod incidents;
pub mod prs;
pub mod search;
pub mod settings;

pub use search::CommandError;
