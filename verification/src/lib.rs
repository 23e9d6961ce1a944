pub mod text;
pub mod model;
pub mod paths;
pub mod fs_util;
pub mod config;
pub mod event;
pub mod privilege;
pub mod ui;
pub mod clean;
pub mod app;
pub mod laws;
pub mod scan;
pub mod cli;
pub mod headless;
