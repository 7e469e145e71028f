//! Typed model of npm `package.json` manifests: decoding from JSON, encoding
//! back without losing unknown fields, and format validation.

use vstd::prelude::*;

pub mod error;
pub mod json;
pub mod shape;
pub mod ordered_map;
pub mod fields;
pub mod objects;
pub mod variants;
pub mod package_json;
pub mod text;
pub mod laws;
pub mod validate;

pub use error::{DecodeError, PackageJsonError};
pub use json::{JsonNumber, JsonValue};
pub use ordered_map::OrderedMap;
pub use objects::{
    BugObject, Directories, Dist, ExportsObject, PersonObject, PublishConfig, RepositoryObject,
    WorkspacesObject,
};
pub use package_json::PackageJson;
pub use shape::JsonShape;
pub use variants::{
    Binary, Bug, BundledDependencies, EsNext, Exports, Man, Person, Private, PublishConfigAccess,
    Repository, Type, Workspaces,
};

verus! {

/// Capture of fields that the schema does not define.
pub type AdditionalFields = OrderedMap<JsonValue>;

} // verus!

