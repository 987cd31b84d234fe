pub mod events;

pub use events::ContainerEvent;
