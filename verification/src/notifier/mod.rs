pub mod console;

pub use console::ConsoleNotifier;
