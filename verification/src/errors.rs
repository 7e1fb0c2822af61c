//! The error taxonomy of locator resolution.

use vstd::prelude::*;

verus! {

/// Why a locator could not be resolved into a source.
///
/// Every failure of the resolution layer is one of these four; they are
/// terminal for the current resolution and carry no retry semantics.
#[derive(Debug, Clone, PartialEq, Eq)]
pub enum ResolveError {
    /// No parse rule matched the locator, or its scheme is malformed.
    InvalidLocator,
    /// A local path does not exist on disk.
    ProjectNotFound,
    /// The external fetch engine failed or returned unusable data; the
    /// captured diagnostic text is kept verbatim.
    FetchFailed(String),
    /// The locator named a recognized but unimplemented source kind.
    NotImplemented,
}

impl ResolveError {
    /// A short, stable label for the error kind.
    pub fn kind_name(&self) -> (r: &'static str)
        ensures
            r@ == self.spec_kind_name(),
    {
        match self {
            ResolveError::InvalidLocator => "invalid locator",
            ResolveError::ProjectNotFound => "project not found",
            ResolveError::FetchFailed(_) => "fetch failed",
            ResolveError::NotImplemented => "not implemented",
        }
    }

    /// What `kind_name` returns for each variant.
    pub open spec fn spec_kind_name(&self) -> Seq<char> {
        match self {
            ResolveError::InvalidLocator => "invalid locator"@,
            ResolveError::ProjectNotFound => "project not found"@,
            ResolveError::FetchFailed(_) => "fetch failed"@,
            ResolveError::NotImplemented => "not implemented"@,
        }
    }
}

} // verus!
