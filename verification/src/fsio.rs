//! Trusted probes into the filesystem.
//!
//! What these return depends on the machine's disk at the moment of the
//! call, so none of them promises anything about its result; every caller
//! states what holds whatever came back.

use vstd::prelude::*;

verus! {

/// Canonicalize a path against the current working directory.
///
/// Relies on `std::path::Path::canonicalize`; `None` when the path does
/// not exist, cannot be resolved, or is not valid Unicode.
#[verifier::external_body]
pub fn fs_canonicalize(path: &str) -> (r: Option<String>) {
    match std::path::Path::new(path).canonicalize() {
        Ok(p) => match p.to_str() {
            Some(s) => Some(s.to_string()),
            None => None,
        },
        Err(_) => None,
    }
}

/// Does this path name an existing regular file?
///
/// Relies on `std::path::Path::is_file`.
#[verifier::external_body]
pub fn fs_is_file(path: &str) -> (r: bool) {
    std::path::Path::new(path).is_file()
}

/// Does this path name an existing directory?
///
/// Relies on `std::path::Path::is_dir`.
#[verifier::external_body]
pub fn fs_is_dir(path: &str) -> (r: bool) {
    std::path::Path::new(path).is_dir()
}

} // verus!
