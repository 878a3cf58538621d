use vstd::prelude::*;

use crate::expression::opt_view;

verus! {

/// A license found for a package.
#[derive(Clone, Debug, PartialEq, Eq)]
pub struct PackageLicense {
    pub license_id: String,
    pub name: String,
    pub license_text: String,
    pub license_text_html: String,
}

/// A package of an SBOM with its licenses.
#[derive(Clone, Debug, PartialEq, Eq)]
pub struct SbomPackage {
    pub name: String,
    pub version: Option<String>,
    pub purl: String,
    pub supplier: Option<String>,
    pub licenses: Vec<PackageLicense>,
}

/// The licenses of all packages of an SBOM.
#[derive(Clone, Debug, PartialEq, Eq)]
pub struct SbomLicense {
    pub sbom_name: String,
    pub packages: Vec<SbomPackage>,
}

pub struct PackageLicenseView {
    pub license_id: Seq<char>,
    pub name: Seq<char>,
    pub license_text: Seq<char>,
    pub license_text_html: Seq<char>,
}

pub struct SbomPackageView {
    pub name: Seq<char>,
    pub version: Option<Seq<char>>,
    pub purl: Seq<char>,
    pub supplier: Option<Seq<char>>,
    pub licenses: Seq<PackageLicenseView>,
}

pub struct SbomLicenseView {
    pub sbom_name: Seq<char>,
    pub packages: Seq<SbomPackageView>,
}

impl View for PackageLicense {
    type V = PackageLicenseView;

    open spec fn view(&self) -> PackageLicenseView {
        PackageLicenseView {
            license_id: self.license_id@,
            name: self.name@,
            license_text: self.license_text@,
            license_text_html: self.license_text_html@,
        }
    }
}

pub open spec fn licenses_view(v: Seq<PackageLicense>) -> Seq<PackageLicenseView> {
    v.map_values(|l: PackageLicense| l@)
}

impl View for SbomPackage {
    type V = SbomPackageView;

    open spec fn view(&self) -> SbomPackageView {
        SbomPackageView {
            name: self.name@,
            version: opt_view(self.version),
            purl: self.purl@,
            supplier: opt_view(self.supplier),
            licenses: licenses_view(self.licenses@),
        }
    }
}

pub open spec fn packages_view(v: Seq<SbomPackage>) -> Seq<SbomPackageView> {
    v.map_values(|p: SbomPackage| p@)
}

impl View for SbomLicense {
    type V = SbomLicenseView;

    open spec fn view(&self) -> SbomLicenseView {
        SbomLicenseView { sbom_name: self.sbom_name@, packages: packages_view(self.packages@) }
    }
}

} // verus!
