//! Failures of encoding and decoding.

use crate::value::Json;
use crate::value::Value;
use vstd::prelude::*;

verus! {

/// Mathematical model of an [`Error`].
pub ghost enum Fault {
    MissingField { field: Seq<char> },
    MismatchType { expected: Seq<char>, found: Json },
    UnsupportedVersion { version: u8 },
    AssetNotFound { path: Seq<char> },
    AssetLoadFailed { path: Seq<char> },
    AssetCopyFailed { path: Seq<char> },
    AssetAccessFailed { path: Seq<char> },
    ArchiveAcquireFailed,
}

/// Why a value could not be encoded or decoded.
#[derive(Debug, PartialEq)]
pub enum Error {
    /// An object lacks a member that the layout requires.
    MissingField { field: String },
    /// A node has another shape than the layout requires; `found` is a copy
    /// of the offending node.
    MismatchType { expected: String, found: Value },
    /// The manifest names a schema version that is not implemented.
    UnsupportedVersion { version: u8 },
    /// No bytes are to be had for an asset.
    AssetNotFound { path: String },
    /// The bytes of an asset could not be read from its source.
    AssetLoadFailed { path: String },
    /// The stored form of an asset could not be copied.
    AssetCopyFailed { path: String },
    /// The buffer of an asset could not be reached.
    AssetAccessFailed { path: String },
    /// The backing archive could not be reached.
    ArchiveAcquireFailed,
}

impl Error {
    /// The failure that this error stands for.
    pub open spec fn fault(self) -> Fault {
        match self {
            Error::MissingField { field } => Fault::MissingField { field: field@ },
            Error::MismatchType { expected, found } => Fault::MismatchType {
                expected: expected@,
                found: found.json(),
            },
            Error::UnsupportedVersion { version } => Fault::UnsupportedVersion { version },
            Error::AssetNotFound { path } => Fault::AssetNotFound { path: path@ },
            Error::AssetLoadFailed { path } => Fault::AssetLoadFailed { path: path@ },
            Error::AssetCopyFailed { path } => Fault::AssetCopyFailed { path: path@ },
            Error::AssetAccessFailed { path } => Fault::AssetAccessFailed { path: path@ },
            Error::ArchiveAcquireFailed => Fault::ArchiveAcquireFailed,
        }
    }

    /// A copy of the error.
    pub fn duplicate(&self) -> (copy: Error)
        ensures
            copy.fault() == self.fault(),
    {
        match self {
            Error::MissingField { field } => Error::MissingField { field: field.clone() },
            Error::MismatchType { expected, found } => Error::MismatchType {
                expected: expected.clone(),
                found: found.duplicate(),
            },
            Error::UnsupportedVersion { version } => Error::UnsupportedVersion {
                version: *version,
            },
            Error::AssetNotFound { path } => Error::AssetNotFound { path: path.clone() },
            Error::AssetLoadFailed { path } => Error::AssetLoadFailed { path: path.clone() },
            Error::AssetCopyFailed { path } => Error::AssetCopyFailed { path: path.clone() },
            Error::AssetAccessFailed { path } => Error::AssetAccessFailed { path: path.clone() },
            Error::ArchiveAcquireFailed => Error::ArchiveAcquireFailed,
        }
    }
}

/// A type mismatch at `found`, where a node of shape `expected` was wanted.
pub fn mismatch(expected: &str, found: &Value) -> (error: Error)
    ensures
        error.fault() == (Fault::MismatchType { expected: expected@, found: found.json() }),
{
    Error::MismatchType { expected: expected.to_owned(), found: found.duplicate() }
}

} // verus!
