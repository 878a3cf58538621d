//! Fedora's license data and the lookup records made from it.

pub mod api;
pub mod laws;
pub mod license;
