use vstd::prelude::*;
use vstd::string::StringExecFns;

verus! {

/// Where the SPDX license list is read from.
pub struct SpdxLicense {
    spdx_license_url: String,
}

impl View for SpdxLicense {
    type V = Seq<char>;

    closed spec fn view(&self) -> Seq<char> {
        self.spdx_license_url@
    }
}

impl SpdxLicense {
    /// The list at `spdx_license_url`.
    pub fn new(spdx_license_url: &str) -> (r: Self)
        ensures
            r@ == spdx_license_url@,
    {
        SpdxLicense { spdx_license_url: String::from_str(spdx_license_url) }
    }

    /// The address of the list.
    pub fn url(&self) -> (r: &str)
        ensures
            r@ == self@,
    {
        self.spdx_license_url.as_str()
    }
}

/// Where the details of one SPDX license are read from.
pub struct SpdxLicenseContent {
    spdx_license_content_url: String,
}

impl View for SpdxLicenseContent {
    type V = Seq<char>;

    closed spec fn view(&self) -> Seq<char> {
        self.spdx_license_content_url@
    }
}

impl SpdxLicenseContent {
    /// The details at `spdx_license_content_url`.
    pub fn new(spdx_license_content_url: &str) -> (r: Self)
        ensures
            r@ == spdx_license_content_url@,
    {
        SpdxLicenseContent { spdx_license_content_url: String::from_str(spdx_license_content_url) }
    }

    /// The address of the details.
    pub fn url(&self) -> (r: &str)
        ensures
            r@ == self@,
    {
        self.spdx_license_content_url.as_str()
    }
}

} // verus!
