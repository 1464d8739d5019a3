//! Status aggregation core for an engineering cockpit: a four-level alert state,
//! a tiered cache with time-to-live, an event bus with bounded history, a poller
//! that tracks failures, and the aggregation and ranking rules for pull requests,
//! incidents and search results.

pub mod clock;
pub mod ranking;
pub mod tally;
pub mod text;
pub mod system;
pub mod integrations;
pub mod services;
pub mod kernel;
pub mod security;
pub mod commands;
