//! The SPDX license list and the lookup records made from it.

pub mod api;
pub mod fetcher;
pub mod laws;
pub mod license;
