//! Layout arithmetic, labels, colors and texts of the terminal UI. Drawing
//! itself is done by the application with `ratatui`.
pub mod dashboard;
pub mod detail;
pub mod footer;
pub mod geometry;
pub mod header;
pub mod modal;
pub mod sidebar;
pub mod terminal;
pub mod theme;
pub mod widgets;
