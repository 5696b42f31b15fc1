//! Networking: the TUN device's settings, the privileges it needs, the
//! configuration that routes traffic through it, and bypass routes.

pub mod bypass;
pub mod config;
pub mod device;
pub mod privilege;
