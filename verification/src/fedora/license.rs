use vstd::prelude::*;

verus! {

/// An entry of Fedora's license data.
#[derive(Clone, Debug, PartialEq, Eq)]
pub struct LicenseInfo {
    pub license: Option<License>,
    pub fedora: Option<Fedora>,
    pub approved: String,
    pub fedora_abbrev: Option<String>,
    pub fedora_name: Option<String>,
    pub spdx_abbrev: Option<String>,
}

/// The SPDX side of an entry: its license expression and status.
#[derive(Clone, Debug, PartialEq, Eq)]
pub struct License {
    pub expression: String,
    pub status: Vec<String>,
    pub url: Option<String>,
    pub text: Option<String>,
}

/// The legacy Fedora names and abbreviations of an entry.
#[derive(Clone, Debug, PartialEq, Eq)]
pub struct Fedora {
    pub legacy_name: Option<Vec<String>>,
    pub legacy_abbreviation: Option<Vec<String>>,
}

} // verus!
