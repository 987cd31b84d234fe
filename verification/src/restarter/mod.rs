pub mod engine;

pub use engine::RestartTracker;
