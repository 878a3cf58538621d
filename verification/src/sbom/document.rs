use vstd::prelude::*;

use crate::expression::SimpleLicense;

verus! {

/// An external reference of a package, such as its package URL.
#[derive(Clone, Debug, PartialEq, Eq)]
pub struct ExternalPackageReference {
    pub reference_type: String,
    pub reference_locator: String,
}

/// A license that the document itself defines, with its extracted text.
#[derive(Clone, Debug, PartialEq, Eq)]
pub struct OtherLicensingInformationDetected {
    pub license_identifier: String,
    pub license_name: String,
    pub extracted_text: String,
}

/// A package of an SPDX document: what the license scan reads of it, with the
/// simple licenses of its declared license expression.
#[derive(Clone, Debug, PartialEq, Eq)]
pub struct PackageInformation {
    pub package_name: String,
    pub package_version: Option<String>,
    pub package_supplier: Option<String>,
    pub external_reference: Vec<ExternalPackageReference>,
    pub declared_license: Option<Vec<SimpleLicense>>,
}

/// An SPDX document: what the license scan reads of it.
#[derive(Clone, Debug, PartialEq, Eq)]
pub struct SpdxDocument {
    pub document_name: String,
    pub creators: Vec<String>,
    pub package_information: Vec<PackageInformation>,
    pub other_licensing_information_detected: Vec<OtherLicensingInformationDetected>,
}

/// An SBOM in one of the formats that the scan is given.
#[derive(Clone, Debug, PartialEq, Eq)]
pub enum Sbom {
    Spdx(SpdxDocument),
    CycloneDx,
}

} // verus!
