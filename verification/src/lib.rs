//! Core logic of the NeoFM file manager and text editor.
pub mod text;
pub mod paths;
pub mod keys;
pub mod theme;
pub mod config;
pub mod utils;
pub mod editor;
pub mod file_browser;
pub mod browser_keys;
pub mod tabs;
pub mod app;
pub mod tasks;
pub mod view;
