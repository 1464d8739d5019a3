//! What the whole application shares: events and the bus that carries them,
//! settings, and the top-level error.

pub mod config;
pub mod errors;
pub mod events;

pub use events::{AppEvent, EventBus, SubscriptionId};
pub use errors::CockpitError;
