use vstd::prelude::*;
use vstd::string::StringExecFns;

verus! {

/// The connection string for the license database: an in-memory SQLite
/// database for tests, else the `sqlite://` scheme followed by the path.
pub open spec fn connection_string(is_test: bool, db_path: Seq<char>) -> Seq<char> {
    if is_test {
        "sqlite::memory:"@
    } else {
        "sqlite://"@ + db_path
    }
}

/// The connection string that the database is opened with.
pub fn db_connection_string(is_test: bool, db_path: &str) -> (s: String)
    ensures
        s@ == connection_string(is_test, db_path@),
{
    if !is_test {
        let mut s = String::from_str("sqlite://");
        s.append(db_path);
        s
    } else {
        String::from_str("sqlite::memory:")
    }
}

/// A copy of an optional string.
pub fn copy_opt_string(o: &Option<String>) -> (r: Option<String>)
    ensures
        r == *o,
{
    match o {
        Some(s) => Some(s.clone()),
        None => None,
    }
}

} // verus!
