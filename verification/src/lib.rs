//! Verified core of a transparent crosshair overlay: colour and hotkey
//! settings, the crosshair geometry, the overlay window's event handling and
//! the small HTTP settings service that drives it.

pub mod color;
pub mod settings;
pub mod geometry;
pub mod window;
pub mod text;
pub mod request;
pub mod connection;
pub mod service;
pub mod autostart;
pub mod laws;
