//! Decision and bookkeeping logic of a Docker container watchdog.
pub mod clock;
pub mod config;
pub mod docker;
pub mod keyed;
pub mod logger;
pub mod monitor;
pub mod notifier;
pub mod restarter;
pub mod text;
pub mod utils;
