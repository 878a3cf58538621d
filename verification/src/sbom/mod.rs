//! SBOM documents and the scan that resolves the licenses of their packages.

pub mod document;
pub mod model;
pub mod laws;
pub mod scanner;
