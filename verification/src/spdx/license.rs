use vstd::prelude::*;

verus! {

/// The SPDX license list.
#[allow(non_snake_case)]
#[derive(Clone, Debug, PartialEq, Eq)]
pub struct LicenseList {
    pub licenseListVersion: String,
    pub licenses: Vec<License>,
}

/// An entry of the SPDX license list.
#[allow(non_snake_case)]
#[derive(Clone, Debug, PartialEq, Eq)]
pub struct License {
    pub reference: String,
    pub isDeprecatedLicenseId: bool,
    pub detailsUrl: String,
    pub referenceNumber: i32,
    pub name: String,
    pub licenseId: String,
    pub seeAlso: Vec<String>,
    pub isOsiApproved: bool,
    pub isFsfLibre: Option<bool>,
}

/// The details of one SPDX license.
#[derive(Clone, Debug, PartialEq, Eq)]
pub struct LicenseDetail {
    pub is_deprecated_license_id: bool,
    pub is_fsf_libre: Option<bool>,
    pub license_text: String,
    pub standard_license_template: String,
    pub name: String,
    pub license_comments: Option<String>,
    pub license_id: String,
    pub cross_ref: Vec<CrossRef>,
    pub see_also: Vec<String>,
    pub is_osi_approved: bool,
    pub license_text_html: String,
}

/// A cross reference of an SPDX license.
#[derive(Clone, Debug, PartialEq, Eq)]
pub struct CrossRef {
    pub match_: String,
    pub url: String,
    pub is_valid: bool,
    pub is_live: bool,
    pub timestamp: String,
    pub is_way_back_link: bool,
    pub order: i32,
}

} // verus!
