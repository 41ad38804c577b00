//! Package-resolution core of a multi-ecosystem monorepo release manager.
//!
//! The library discovers a package's identity and current version from its
//! ecosystem manifest, orders a package set so that dependencies come
//! before dependents, and plans the version-bump and publish steps.  The
//! Go ecosystem engine is the concrete resolver implemented here; further
//! ecosystems plug in by implementing the same [`resolver::Resolver`]
//! contract.
//!
//! Every function works on plain values — file contents, a tag listing —
//! handed in by the caller as a [`resolver::RootSnapshot`].  Reading and
//! writing files and running external commands belong to the surrounding
//! application.

pub mod config;
pub mod error;
pub mod laws;
pub mod manifest;
pub mod resolver;
pub mod sort;
pub mod text;
pub mod version;
