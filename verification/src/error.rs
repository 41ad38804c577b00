//! The closed error taxonomy of the resolution core.

use vstd::prelude::*;

verus! {

/// Spec-level value of a [`ResolveError`].
pub enum ErrV {
    /// A required manifest or workspace file is absent.
    FileOrDirNotFound { path: Seq<char> },
    /// A structural parse failure, carrying the offending path and a reason.
    ParseError { path: Seq<char>, reason: Seq<char> },
    /// The resolved version string is not a valid semantic version.
    VersionFormat { version: Seq<char> },
}

/// An error of the resolution core.
///
/// Every error carries the offending path or text, so that the caller can
/// report it; no error is silently dropped.
#[derive(Debug, Clone, PartialEq, Eq)]
pub enum ResolveError {
    FileOrDirNotFound { path: String },
    ParseError { path: String, reason: String },
    VersionFormat { version: String },
}

impl View for ResolveError {
    type V = ErrV;

    open spec fn view(&self) -> ErrV {
        match self {
            ResolveError::FileOrDirNotFound { path } => ErrV::FileOrDirNotFound { path: path@ },
            ResolveError::ParseError { path, reason } => ErrV::ParseError {
                path: path@,
                reason: reason@,
            },
            ResolveError::VersionFormat { version } => ErrV::VersionFormat { version: version@ },
        }
    }
}

impl DeepView for ResolveError {
    type V = ErrV;

    open spec fn deep_view(&self) -> ErrV {
        self.view()
    }
}

impl ResolveError {
    /// A human-readable description of the error.
    pub fn message(&self) -> (r: String)
        ensures
            match self@ {
                ErrV::FileOrDirNotFound { path } => r@ == "file or directory not found: "@ + path,
                ErrV::ParseError { path, reason } => r@ == "parse error in "@ + path + ": "@
                    + reason,
                ErrV::VersionFormat { version } => r@ == "invalid semantic version: "@ + version,
            },
    {
        match self {
            ResolveError::FileOrDirNotFound { path } => String::from_str(
                "file or directory not found: ",
            ).concat(path.as_str()),
            ResolveError::ParseError { path, reason } => String::from_str("parse error in ")
                .concat(path.as_str()).concat(": ").concat(reason.as_str()),
            ResolveError::VersionFormat { version } => String::from_str(
                "invalid semantic version: ",
            ).concat(version.as_str()),
        }
    }
}

/// The spec view of an executable `Result`, over the views of both sides.
pub open spec fn result_view<T: View, E: View>(r: Result<T, E>) -> Result<T::V, E::V> {
    match r {
        Ok(t) => Ok(t@),
        Err(e) => Err(e@),
    }
}

/// The same, over the deep views (for collection-valued results).
pub open spec fn result_deep_view<T: DeepView, E: DeepView>(r: Result<T, E>) -> Result<
    T::V,
    E::V,
> {
    match r {
        Ok(t) => Ok(t.deep_view()),
        Err(e) => Err(e.deep_view()),
    }
}

} // verus!
