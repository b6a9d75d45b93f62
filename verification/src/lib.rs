//! Quota reading, API configuration discovery and widget geometry for a
//! desktop quota widget.

pub mod text;
pub mod toml;
pub mod json;
pub mod urls;
pub mod config;
pub mod auth;
pub mod quota;
pub mod order;
pub mod geometry;
pub mod balance;
pub mod headers;
pub mod tray;
pub mod paths;
pub mod menu;
