pub mod dedup;
pub mod metrics;
pub mod watcher;

pub use dedup::EventDedup;
pub use metrics::CrashMetrics;
