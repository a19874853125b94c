pub mod grid;

pub use grid::Window;
pub mod elements;
pub mod app;
pub mod prompt;
