pub mod app;
pub mod tui;
