pub mod helpers;

pub use helpers::{short_id, truncate_logs};
