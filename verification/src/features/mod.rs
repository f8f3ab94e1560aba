//! The device features: each module decides the HID++ exchanges of one feature and renders its
//! status.

pub mod battery;
pub mod dpi;
pub mod host;
pub mod haptic;
pub mod force_button;
pub mod wheel;
pub mod firmware;
