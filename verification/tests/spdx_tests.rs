use sbom_license_scanner::spdx::api::{spdx_license_record, spdx_license_records, SpdxLicenseRecord};
use sbom_license_scanner::spdx::fetcher::{SpdxLicense, SpdxLicenseContent};
use sbom_license_scanner::spdx::license::{License, LicenseDetail};

fn license(id: &str) -> License {
    License {
        reference: format!("https://spdx.org/licenses/{}.html", id),
        isDeprecatedLicenseId: false,
        detailsUrl: format!("https://spdx.org/licenses/{}.json", id),
        referenceNumber: 1,
        name: format!("{} License", id),
        licenseId: id.to_string(),
        seeAlso: vec![],
        isOsiApproved: true,
        isFsfLibre: None,
    }
}

fn detail(id: &str, comments: Option<&str>) -> LicenseDetail {
    LicenseDetail {
        is_deprecated_license_id: false,
        is_fsf_libre: Some(true),
        license_text: format!("text of {}", id),
        standard_license_template: String::new(),
        name: format!("{} License", id),
        license_comments: comments.map(|c| c.to_string()),
        license_id: id.to_string(),
        cross_ref: vec![],
        see_also: vec![],
        is_osi_approved: true,
        license_text_html: format!("<p>text of {}</p>", id),
    }
}

#[test]
fn spdx_license_keeps_its_url() {
    let list = SpdxLicense::new("https://spdx.org/licenses/licenses.json");
    assert_eq!(list.url(), "https://spdx.org/licenses/licenses.json");
}

#[test]
fn spdx_license_content_keeps_its_url() {
    let content = SpdxLicenseContent::new("https://spdx.org/licenses/Soundex.json");
    assert_eq!(content.url(), "https://spdx.org/licenses/Soundex.json");
}

#[test]
fn record_without_comments_has_empty_comments() {
    let r = spdx_license_record(&license("MIT"), &detail("MIT", None));
    assert_eq!(
        r,
        SpdxLicenseRecord {
            spdx_id: "MIT".to_string(),
            spdx_name: "MIT License".to_string(),
            detailsUrl: "https://spdx.org/licenses/MIT.json".to_string(),
            licenseText: "text of MIT".to_string(),
            licenseComments: String::new(),
            licenseTextHtml: "<p>text of MIT</p>".to_string(),
        }
    );
}

#[test]
fn record_with_comments_keeps_them() {
    let r = spdx_license_record(&license("Soundex"), &detail("Soundex", Some("see also")));
    assert_eq!(r.licenseComments, "see also");
    assert_eq!(r.spdx_id, "Soundex");
}

#[test]
fn records_skip_licenses_without_details_and_keep_order() {
    let fetched = vec![
        (license("MIT"), Some(detail("MIT", None))),
        (license("0BSD"), None),
        (license("Apache-2.0"), Some(detail("Apache-2.0", Some("c")))),
    ];
    let rows = spdx_license_records(&fetched);
    assert_eq!(rows.len(), 2);
    assert_eq!(rows[0].spdx_id, "MIT");
    assert_eq!(rows[1].spdx_id, "Apache-2.0");
    assert_eq!(rows[1].licenseComments, "c");
}

#[test]
fn no_fetched_licenses_no_records() {
    assert!(spdx_license_records(&vec![]).is_empty());
}
