//! The tiered cache, the aggregators and the poller.

pub mod background_poller;
pub mod cache_service;
pub mod incident_monitor;
pub mod lru_tier;
pub mod pr_aggregator;
pub mod search_service;

pub use cache_service::{CacheConfig, CacheEntry, CacheError, CacheService, DurableRow};
pub use pr_aggregator::{GroupedPrs, PrAggregator, PrAggregatorConfig, PrGrouping, PrSummary};
pub use incident_monitor::{IncidentFilter, IncidentMonitor, IncidentMonitorConfig, IncidentSummary};
pub use search_service::{
    SearchQuery, SearchResult, SearchResultMetadata, SearchResultType, SearchService,
};
pub use background_poller::{
    BackgroundPoller, IncidentPollData, PollResult, PollerConfig, PollerState, PollingStats,
    PrPollData,
};
