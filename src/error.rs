use vstd::prelude::*;

verus! {

/// Why a JSON value could not be read as a manifest or one of its parts.
#[derive(Debug, PartialEq, Eq, Structural)]
pub enum DecodeError {
    /// The value does not have any of the shapes that the field allows.
    InvalidShape,
    /// An object holds the same key twice.
    DuplicateKey,
    /// The top-level value is not a JSON object.
    NotAnObject,
}

/// The errors of reading and writing manifests.
#[derive(Debug)]
pub enum PackageJsonError {
    /// An error that fits no other kind.
    Unknown,
    /// The text is not JSON.
    ParsePackageJson(serde_json::Error),
    /// The text is JSON, but not a manifest.
    InvalidPackageJson(DecodeError),
    /// The manifest could not be written as text.
    SerializePackageJson(serde_json::Error),
}

} // verus!
