use sbom_license_scanner::text::{chars_of, contains_str};

#[test]
fn finds_license_ref_marker() {
    assert!(contains_str("LicenseRef-Fedora-Public-Domain", "LicenseRef-"));
    assert!(contains_str("MIT AND LicenseRef-Callaway-MIT", "LicenseRef-"));
    assert!(!contains_str("MIT OR Apache-2.0", "LicenseRef-"));
}

#[test]
fn empty_needle_is_found_everywhere() {
    assert!(contains_str("", ""));
    assert!(contains_str("abc", ""));
}

#[test]
fn longer_needle_is_not_found() {
    assert!(!contains_str("ab", "abc"));
    assert!(!contains_str("", "a"));
}

#[test]
fn finds_needle_at_the_end_and_in_unicode_text() {
    assert!(contains_str("Organization: Red Hat", "Red Hat"));
    assert!(contains_str("café au lait", "fé a"));
    assert!(!contains_str("Red hat", "Red Hat"));
}

#[test]
fn chars_of_keeps_each_char() {
    assert_eq!(chars_of("aé€"), vec!['a', 'é', '€']);
    assert_eq!(chars_of(""), Vec::<char>::new());
}
