pub mod container_logs;

pub use container_logs::is_removed_container_error;
