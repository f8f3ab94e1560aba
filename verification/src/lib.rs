//! Status, settings and reconnect logic for the Logitech MX Master 4 over HID++.

pub mod device;
pub mod error;
pub mod exchange;
pub mod text;
pub mod features;
pub mod autostart;
pub mod cli;
pub mod config;
pub mod daemon;
pub mod service;
