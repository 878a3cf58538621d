use sbom_license_scanner::expression::{text_parser_may_panic, SimpleLicense};
use sbom_license_scanner::fedora::api::{
    fedora_data_parses_safely, fedora_license_records, fedora_license_records_checked, license_info_records, FedoraLicenseRecord, FedoraLicenserError,
};
use sbom_license_scanner::fedora::license::{Fedora, License, LicenseInfo};

fn s(x: &str) -> String {
    x.to_string()
}

fn simple(id: &str) -> SimpleLicense {
    SimpleLicense { identifier: s(id), document_ref: None, license_ref: false }
}

fn row(fedora: &str, spdx: &str, approved: &str) -> FedoraLicenseRecord {
    FedoraLicenseRecord { fedora_abbrev: s(fedora), spdx_abbrev: s(spdx), approved: s(approved) }
}

fn info(expression: Option<&str>, legacy: Option<Vec<&str>>, approved: &str, fedora_abbrev: Option<&str>, spdx_abbrev: Option<&str>) -> LicenseInfo {
    LicenseInfo {
        license: expression.map(|e| License { expression: s(e), status: vec![s("allowed")], url: None, text: None }),
        fedora: legacy.map(|l| Fedora { legacy_name: None, legacy_abbreviation: Some(l.into_iter().map(s).collect()) }),
        approved: s(approved),
        fedora_abbrev: fedora_abbrev.map(s),
        fedora_name: None,
        spdx_abbrev: spdx_abbrev.map(s),
    }
}

fn sorted(mut v: Vec<FedoraLicenseRecord>) -> Vec<FedoraLicenseRecord> {
    v.sort_by(|a, b| (&a.fedora_abbrev, &a.spdx_abbrev, &a.approved).cmp(&(&b.fedora_abbrev, &b.spdx_abbrev, &b.approved)));
    v
}

#[test]
fn each_license_crossed_with_each_legacy_abbreviation() {
    let i = info(Some("MIT OR Apache-2.0"), Some(vec!["MIT", "ASL 2.0"]), "yes", None, None);
    let rows = license_info_records(&i, &vec![simple("MIT"), simple("Apache-2.0")], &vec![]);
    assert_eq!(
        rows,
        vec![
            row("MIT", "MIT", "yes"),
            row("ASL 2.0", "MIT", "yes"),
            row("MIT", "Apache-2.0", "yes"),
            row("ASL 2.0", "Apache-2.0", "yes"),
        ]
    );
}

#[test]
fn license_ref_expression_is_kept_whole() {
    let i = info(Some("LicenseRef-Fedora-Public-Domain"), Some(vec!["Public Domain"]), "yes", None, None);
    let rows = license_info_records(&i, &vec![simple("ignored")], &vec![]);
    assert_eq!(rows, vec![row("Public Domain", "LicenseRef-Fedora-Public-Domain", "yes")]);
}

#[test]
fn no_legacy_abbreviation_no_rows_from_expression() {
    let mut i = info(Some("MIT"), Some(vec![]), "yes", None, None);
    i.fedora = Some(Fedora { legacy_name: Some(vec![s("MIT License")]), legacy_abbreviation: None });
    assert!(license_info_records(&i, &vec![simple("MIT")], &vec![]).is_empty());
}

#[test]
fn expression_without_fedora_part_gives_no_rows() {
    let i = info(Some("MIT"), None, "yes", None, None);
    assert!(license_info_records(&i, &vec![simple("MIT")], &vec![]).is_empty());
}

#[test]
fn abbreviations_give_one_row_per_license() {
    let i = info(None, None, "no", Some("GPLv2+"), Some("GPL-2.0-or-later"));
    let rows = license_info_records(&i, &vec![], &vec![simple("GPL-2.0-or-later")]);
    assert_eq!(rows, vec![row("GPLv2+", "GPL-2.0-or-later", "no")]);
}

#[test]
fn license_ref_abbreviation_gives_one_whole_row() {
    let i = info(None, None, "yes", Some("Callaway"), Some("LicenseRef-Callaway-MIT"));
    let rows = license_info_records(&i, &vec![], &vec![simple("unused")]);
    assert_eq!(rows, vec![row("Callaway", "LicenseRef-Callaway-MIT", "yes")]);
}

#[test]
fn expression_rows_come_before_abbreviation_rows() {
    let i = info(Some("MIT"), Some(vec!["MIT"]), "yes", Some("Expat"), Some("MIT"));
    let rows = license_info_records(&i, &vec![simple("MIT")], &vec![simple("MIT")]);
    assert_eq!(rows, vec![row("MIT", "MIT", "yes"), row("Expat", "MIT", "yes")]);
}

#[test]
fn rows_do_not_depend_on_listing_order() {
    let i = info(Some("MIT OR Apache-2.0"), Some(vec!["MIT", "ASL 2.0"]), "yes", None, None);
    let a = license_info_records(&i, &vec![simple("MIT"), simple("Apache-2.0")], &vec![]);
    let b = license_info_records(&i, &vec![simple("Apache-2.0"), simple("MIT")], &vec![]);
    assert_ne!(a, b);
    assert_eq!(sorted(a), sorted(b));
}

#[test]
fn rows_carry_the_approval_of_their_entry() {
    let i = info(Some("BSD-3-Clause"), Some(vec!["BSD"]), "not-allowed", Some("BSD"), Some("BSD-3-Clause"));
    let rows = license_info_records(&i, &vec![simple("BSD-3-Clause")], &vec![simple("BSD-3-Clause")]);
    assert_eq!(rows.len(), 2);
    assert!(rows.iter().all(|r| r.approved == "not-allowed"));
}

#[test]
fn records_of_collection_use_the_parser() {
    let infos = vec![
        info(Some("MIT OR Apache-2.0"), Some(vec!["MIT"]), "yes", None, None),
        info(None, None, "no", Some("GPLv2"), Some("GPL-2.0-only")),
        info(Some("LicenseRef-Fedora-UltraPermissive"), Some(vec!["UltraPermissive"]), "yes", None, None),
    ];
    let rows = fedora_license_records(&infos).unwrap();
    assert_eq!(rows.len(), 4);
    let first_two = sorted(rows[0..2].to_vec());
    assert_eq!(first_two, vec![row("MIT", "Apache-2.0", "yes"), row("MIT", "MIT", "yes")]);
    assert_eq!(rows[2], row("GPLv2", "GPL-2.0-only", "no"));
    assert_eq!(rows[3], row("UltraPermissive", "LicenseRef-Fedora-UltraPermissive", "yes"));
}

#[test]
fn with_exception_keeps_the_license() {
    let infos = vec![info(Some("GPL-2.0-only WITH Classpath-exception-2.0"), Some(vec!["GPLv2 with exceptions"]), "yes", None, None)];
    let rows = fedora_license_records(&infos).unwrap();
    assert_eq!(rows, vec![row("GPLv2 with exceptions", "GPL-2.0-only", "yes")]);
}

#[test]
fn repeated_license_gives_one_row() {
    let infos = vec![info(Some("MIT AND MIT"), Some(vec!["MIT"]), "yes", None, None)];
    let rows = fedora_license_records(&infos).unwrap();
    assert_eq!(rows, vec![row("MIT", "MIT", "yes")]);
}

#[test]
fn unparsable_expression_fails() {
    let infos = vec![
        info(Some("MIT"), Some(vec!["MIT"]), "yes", None, None),
        info(Some("MIT OR"), Some(vec!["MIT"]), "yes", None, None),
    ];
    match fedora_license_records(&infos) {
        Err(FedoraLicenserError::spdxExpressionError(_)) => {}
        other => panic!("expected a parse error, got {:?}", other),
    }
}

#[test]
fn unparsable_expression_fails_even_without_legacy_abbreviations() {
    let mut i = info(Some("AND AND"), Some(vec![]), "yes", None, None);
    i.fedora = Some(Fedora { legacy_name: None, legacy_abbreviation: None });
    assert!(matches!(fedora_license_records(&vec![i]), Err(FedoraLicenserError::spdxExpressionError(_))));
}

#[test]
fn unparsable_abbreviation_fails() {
    let infos = vec![info(None, None, "yes", Some("X"), Some("((MIT"))];
    assert!(matches!(fedora_license_records(&infos), Err(FedoraLicenserError::spdxExpressionError(_))));
}

#[test]
fn license_ref_text_is_not_parsed() {
    let infos = vec![info(Some("LicenseRef-x AND ("), Some(vec!["X"]), "yes", Some("Y"), Some("LicenseRef-y OR"))];
    let rows = fedora_license_records(&infos).unwrap();
    assert_eq!(rows, vec![row("X", "LicenseRef-x AND (", "yes"), row("Y", "LicenseRef-y OR", "yes")]);
}

#[test]
fn text_without_its_counterpart_is_not_parsed() {
    let infos = vec![info(Some("not ( valid"), None, "yes", None, Some("MIT OR"))];
    assert_eq!(fedora_license_records(&infos).unwrap(), vec![]);
}

#[test]
fn empty_collection_gives_no_rows() {
    assert_eq!(fedora_license_records(&vec![]).unwrap(), vec![]);
}

#[test]
fn document_ref_where_a_term_starts_is_detected() {
    assert!(text_parser_may_panic("DocumentRef-abc"));
    assert!(text_parser_may_panic("MIT AND DocumentRef-a.b-c1"));
    assert!(!text_parser_may_panic("DocumentRef-"));
    assert!(!text_parser_may_panic("DocumentRef-abc "));
    assert!(!text_parser_may_panic("DocumentRef-abc:"));
    assert!(!text_parser_may_panic("MIT"));
    assert!(!text_parser_may_panic(""));
    assert!(text_parser_may_panic("(DocumentRef-x"));
    assert!(text_parser_may_panic("MIT+ANDDocumentRef-x"));
    assert!(text_parser_may_panic("MIT or \tDocumentRef-x"));
    assert!(!text_parser_may_panic("MITDocumentRef-x"));
    assert!(!text_parser_may_panic("GPL-2.0-only WITH DocumentRef-x"));
    assert!(!text_parser_may_panic("xAND DocumentRef-x"));
}

#[test]
fn document_ref_inside_an_id_is_parsed() {
    let infos = vec![
        info(Some("MITDocumentRef-x"), Some(vec!["MIT"]), "yes", None, None),
        info(Some("GPL-2.0-only WITH DocumentRef-x"), Some(vec!["GPLv2 with exceptions"]), "yes", None, None),
    ];
    assert!(fedora_data_parses_safely(&infos));
    let rows = fedora_license_records_checked(&infos).unwrap().unwrap();
    assert_eq!(rows, vec![row("MIT", "MITDocumentRef-x", "yes"), row("GPLv2 with exceptions", "GPL-2.0-only", "yes")]);
}

#[test]
fn text_the_parser_panics_on_is_refused() {
    let infos = vec![info(Some("MIT AND DocumentRef-abc"), Some(vec!["MIT"]), "yes", None, None)];
    assert!(!fedora_data_parses_safely(&infos));
    assert!(fedora_license_records_checked(&infos).is_none());
}

#[test]
fn error_before_panicking_text_is_returned() {
    let infos = vec![
        info(Some("MIT OR"), Some(vec!["MIT"]), "yes", None, None),
        info(Some("DocumentRef-abc"), Some(vec!["X"]), "yes", None, None),
    ];
    assert!(fedora_data_parses_safely(&infos));
    assert!(matches!(fedora_license_records_checked(&infos), Some(Err(FedoraLicenserError::spdxExpressionError(_)))));
}

#[test]
fn checked_records_match_plain_records() {
    let infos = vec![
        info(Some("DocumentRef-abc "), Some(vec!["X"]), "yes", None, None),
        info(None, None, "no", Some("GPLv2"), Some("GPL-2.0-only")),
    ];
    let rows = fedora_license_records_checked(&infos).unwrap().unwrap();
    assert_eq!(rows, vec![row("X", "DocumentRef-abc", "yes"), row("GPLv2", "GPL-2.0-only", "no")]);
}
