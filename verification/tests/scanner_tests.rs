use std::collections::HashMap;

use sbom_license_scanner::expression::SimpleLicense;
use sbom_license_scanner::fedora::api::FedoraLicenseRecord;
use sbom_license_scanner::sbom::document::{
    ExternalPackageReference, OtherLicensingInformationDetected, PackageInformation, Sbom,
    SpdxDocument,
};
use sbom_license_scanner::sbom::model::{PackageLicense, SbomLicense, SbomPackage};
use sbom_license_scanner::sbom::scanner::{
    find_extracted, names_red_hat, package_purl, SbomScan, ScanReply, ScanRequest,
};
use sbom_license_scanner::spdx::api::SpdxLicenseRecord;

fn s(x: &str) -> String {
    x.to_string()
}

fn term(id: &str, license_ref: bool) -> SimpleLicense {
    SimpleLicense { identifier: s(id), document_ref: None, license_ref }
}

fn reference(t: &str, locator: &str) -> ExternalPackageReference {
    ExternalPackageReference { reference_type: s(t), reference_locator: s(locator) }
}

fn package(name: &str, refs: Vec<ExternalPackageReference>, declared: Option<Vec<SimpleLicense>>) -> PackageInformation {
    PackageInformation {
        package_name: s(name),
        package_version: Some(s("1.0")),
        package_supplier: Some(s("Organization: Example")),
        external_reference: refs,
        declared_license: declared,
    }
}

fn spdx_row(id: &str) -> SpdxLicenseRecord {
    SpdxLicenseRecord {
        spdx_id: s(id),
        spdx_name: format!("{} name", id),
        detailsUrl: format!("https://spdx.org/licenses/{}.json", id),
        licenseText: format!("{} text", id),
        licenseComments: String::new(),
        licenseTextHtml: format!("<p>{} text</p>", id),
    }
}

fn found(id: &str) -> PackageLicense {
    PackageLicense {
        license_id: s(id),
        name: format!("{} name", id),
        license_text: format!("{} text", id),
        license_text_html: format!("<p>{} text</p>", id),
    }
}

fn fedora_row(abbrev: &str, spdx: &str) -> FedoraLicenseRecord {
    FedoraLicenseRecord { fedora_abbrev: s(abbrev), spdx_abbrev: s(spdx), approved: s("yes") }
}

struct Tables {
    fedora: HashMap<String, Vec<FedoraLicenseRecord>>,
    spdx: HashMap<String, Vec<SpdxLicenseRecord>>,
}

fn tables() -> Tables {
    let mut fedora = HashMap::new();
    fedora.insert(s("ASL 2.0"), vec![fedora_row("ASL 2.0", "Apache-2.0")]);
    fedora.insert(s("MIT"), vec![fedora_row("MIT", "MIT"), fedora_row("MIT", "MIT-0")]);
    let mut spdx = HashMap::new();
    spdx.insert(s("Apache-2.0"), vec![spdx_row("Apache-2.0")]);
    spdx.insert(s("MIT"), vec![spdx_row("MIT")]);
    spdx.insert(s("MIT-0"), vec![spdx_row("MIT-0")]);
    Tables { fedora, spdx }
}

/// Runs the scan, answering each lookup from the tables; returns the result
/// and the lookups asked for.
fn run(mut scan: SbomScan, t: &Tables) -> (SbomLicense, Vec<ScanRequest>) {
    let mut asked = Vec::new();
    while let Some(req) = scan.next_request() {
        asked.push(req.clone());
        let reply = match req {
            ScanRequest::FedoraByAbbrev(a) => ScanReply::Fedora(t.fedora.get(&a).cloned().unwrap_or_default()),
            ScanRequest::SpdxById(id) => ScanReply::Spdx(t.spdx.get(&id).cloned().unwrap_or_default()),
        };
        scan.answer(reply);
    }
    assert!(scan.is_finished());
    (scan.into_result(), asked)
}

fn document(creators: Vec<&str>, packages: Vec<PackageInformation>) -> SpdxDocument {
    SpdxDocument {
        document_name: s("example-sbom"),
        creators: creators.into_iter().map(s).collect(),
        package_information: packages,
        other_licensing_information_detected: vec![OtherLicensingInformationDetected {
            license_identifier: s("LicenseRef-Custom-1"),
            license_name: s("Custom license"),
            extracted_text: s("You may do anything."),
        }],
    }
}

#[test]
fn plain_document_looks_up_spdx_ids() {
    let doc = document(
        vec!["Tool: syft"],
        vec![package("lib-a", vec![reference("cpe23Type", "cpe:x"), reference("purl", "pkg:cargo/lib-a@1.0")], Some(vec![term("MIT", false), term("Apache-2.0", false)]))],
    );
    let (result, asked) = run(SbomScan::new(doc), &tables());
    assert_eq!(asked, vec![ScanRequest::SpdxById(s("MIT")), ScanRequest::SpdxById(s("Apache-2.0"))]);
    assert_eq!(
        result,
        SbomLicense {
            sbom_name: s("example-sbom"),
            packages: vec![SbomPackage {
                name: s("lib-a"),
                version: Some(s("1.0")),
                purl: s("pkg:cargo/lib-a@1.0"),
                supplier: Some(s("Organization: Example")),
                licenses: vec![found("MIT"), found("Apache-2.0")],
            }],
        }
    );
}

#[test]
fn red_hat_document_goes_through_fedora_abbreviations() {
    let doc = document(
        vec!["Tool: builder", "Organization: Red Hat Product Security"],
        vec![package("rpm-a", vec![], Some(vec![term("MIT", false), term("ASL 2.0", false)]))],
    );
    let (result, asked) = run(SbomScan::new(doc), &tables());
    assert_eq!(
        asked,
        vec![
            ScanRequest::FedoraByAbbrev(s("MIT")),
            ScanRequest::SpdxById(s("MIT")),
            ScanRequest::SpdxById(s("MIT-0")),
            ScanRequest::FedoraByAbbrev(s("ASL 2.0")),
            ScanRequest::SpdxById(s("Apache-2.0")),
        ]
    );
    assert_eq!(result.packages[0].licenses, vec![found("MIT"), found("MIT-0"), found("Apache-2.0")]);
    assert_eq!(result.packages[0].purl, "");
}

#[test]
fn unknown_fedora_abbreviation_gives_no_license() {
    let doc = document(vec!["Organization: Red Hat"], vec![package("p", vec![], Some(vec![term("Unknown", false)]))]);
    let (result, asked) = run(SbomScan::new(doc), &tables());
    assert_eq!(asked, vec![ScanRequest::FedoraByAbbrev(s("Unknown"))]);
    assert!(result.packages[0].licenses.is_empty());
}

#[test]
fn license_ref_is_resolved_from_the_document() {
    let doc = document(vec!["Organization: Red Hat"], vec![package("p", vec![], Some(vec![term("LicenseRef-Custom-1", true), term("LicenseRef-Missing", true)]))]);
    let (result, asked) = run(SbomScan::new(doc), &tables());
    assert!(asked.is_empty());
    assert_eq!(
        result.packages[0].licenses,
        vec![PackageLicense {
            license_id: s("LicenseRef-Custom-1"),
            name: s("Custom license"),
            license_text: s("You may do anything."),
            license_text_html: String::new(),
        }]
    );
}

#[test]
fn license_ref_matches_by_substring_of_identifier() {
    let doc = document(vec![], vec![package("p", vec![], Some(vec![term("Custom", true)]))]);
    let (result, _) = run(SbomScan::new(doc), &tables());
    assert_eq!(result.packages[0].licenses[0].license_id, "LicenseRef-Custom-1");
}

#[test]
fn package_without_declared_license_has_none() {
    let doc = document(vec![], vec![package("a", vec![], None), package("b", vec![reference("purl", "pkg:b")], Some(vec![term("MIT", false)]))]);
    let (result, _) = run(SbomScan::new(doc), &tables());
    assert_eq!(result.packages.len(), 2);
    assert_eq!(result.packages[0].name, "a");
    assert!(result.packages[0].licenses.is_empty());
    assert_eq!(result.packages[1].licenses, vec![found("MIT")]);
    assert_eq!(result.packages[1].purl, "pkg:b");
}

#[test]
fn document_without_packages_gives_name_only() {
    let doc = document(vec![], vec![]);
    let (result, asked) = run(SbomScan::new(doc), &tables());
    assert!(asked.is_empty());
    assert_eq!(result, SbomLicense { sbom_name: s("example-sbom"), packages: vec![] });
}

#[test]
fn cyclonedx_gives_empty_result() {
    let (result, asked) = run(SbomScan::for_sbom(Sbom::CycloneDx), &tables());
    assert!(asked.is_empty());
    assert_eq!(result, SbomLicense { sbom_name: String::new(), packages: vec![] });
}

#[test]
fn spdx_sbom_is_scanned() {
    let doc = document(vec![], vec![package("a", vec![], Some(vec![term("MIT", false)]))]);
    let (result, _) = run(SbomScan::for_sbom(Sbom::Spdx(doc)), &tables());
    assert_eq!(result.packages[0].licenses, vec![found("MIT")]);
}

#[test]
fn pending_request_is_asked_again_and_wrong_answer_is_ignored() {
    let doc = document(vec![], vec![package("a", vec![], Some(vec![term("MIT", false)]))]);
    let mut scan = SbomScan::new(doc);
    assert_eq!(scan.next_request(), Some(ScanRequest::SpdxById(s("MIT"))));
    assert_eq!(scan.next_request(), Some(ScanRequest::SpdxById(s("MIT"))));
    scan.answer(ScanReply::Fedora(vec![fedora_row("MIT", "MIT")]));
    assert_eq!(scan.next_request(), Some(ScanRequest::SpdxById(s("MIT"))));
    scan.answer(ScanReply::Spdx(vec![spdx_row("MIT")]));
    assert_eq!(scan.next_request(), None);
    assert!(scan.is_finished());
    assert_eq!(scan.into_result().packages[0].licenses, vec![found("MIT")]);
}

#[test]
fn answer_without_request_changes_nothing() {
    let doc = document(vec![], vec![package("a", vec![], Some(vec![term("MIT", false)]))]);
    let mut scan = SbomScan::new(doc);
    scan.answer(ScanReply::Spdx(vec![spdx_row("Apache-2.0")]));
    let (result, _) = run(scan, &tables());
    assert_eq!(result.packages[0].licenses, vec![found("MIT")]);
}

#[test]
fn purl_is_first_purl_reference() {
    let refs = vec![reference("cpe23Type", "cpe"), reference("purl", "pkg:first"), reference("purl", "pkg:second")];
    assert_eq!(package_purl(&refs), "pkg:first");
    assert_eq!(package_purl(&vec![reference("cpe23Type", "cpe")]), "");
}

#[test]
fn red_hat_is_found_in_any_creator() {
    assert!(names_red_hat(&document(vec!["Tool: x", "Organization: Red Hat, Inc."], vec![])));
    assert!(!names_red_hat(&document(vec!["Organization: RedHat"], vec![])));
}

#[test]
fn extracted_license_is_the_first_match() {
    let others = vec![
        OtherLicensingInformationDetected { license_identifier: s("LicenseRef-A-1"), license_name: s("one"), extracted_text: s("t1") },
        OtherLicensingInformationDetected { license_identifier: s("LicenseRef-A-2"), license_name: s("two"), extracted_text: s("t2") },
    ];
    assert_eq!(find_extracted(&others, &s("LicenseRef-A")).unwrap().name, "one");
    assert_eq!(find_extracted(&others, &s("A-2")).unwrap().license_text, "t2");
    assert_eq!(find_extracted(&others, &s("B")), None);
}

#[test]
fn finished_scan_stays_finished() {
    let mut scan = SbomScan::for_sbom(Sbom::CycloneDx);
    assert!(scan.is_finished());
    assert_eq!(scan.next_request(), None);
    assert_eq!(scan.next_request(), None);
    assert!(scan.is_finished());
}
