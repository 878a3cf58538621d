//! License data of SBOM packages: the rules that turn Fedora's license data
//! and the SPDX license list into lookup rows, and the scan that resolves the
//! licenses of the packages of an SPDX document from the document and those
//! lookups.

pub mod common;
pub mod expression;
pub mod fedora;
pub mod sbom;
pub mod spdx;
pub mod text;
