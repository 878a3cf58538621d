use sbom_license_scanner::common::{copy_opt_string, db_connection_string};

#[test]
fn test_database_is_in_memory() {
    assert_eq!(db_connection_string(true, "data/licenseDb.db"), "sqlite::memory:");
}

#[test]
fn file_database_has_scheme_and_path() {
    assert_eq!(db_connection_string(false, "data/licenseDb.db"), "sqlite://data/licenseDb.db");
    assert_eq!(db_connection_string(false, "../../data/licenseDb.db"), "sqlite://../../data/licenseDb.db");
    assert_eq!(db_connection_string(false, ""), "sqlite://");
}

#[test]
fn copies_optional_strings() {
    assert_eq!(copy_opt_string(&Some("a".to_string())), Some("a".to_string()));
    assert_eq!(copy_opt_string(&None), None);
}
