use vstd::prelude::*;

use crate::error::DecodeError;
use crate::fields::{key_is, lemma_filter_has, lemma_lookup_unique, unknown_by};
use crate::json::{keys_unique, JsonValue};
use crate::objects::{BugObject, ExportsObject, PersonObject, RepositoryObject, WorkspacesObject};
use crate::ordered_map::OrderedMap;
use crate::shape::JsonShape;

verus! {

/// A person: a bare name, or an object with name, url and email.
#[derive(Debug)]
pub enum Person {
    /// The bare name.
    String(String),
    /// The structured form.
    Object(PersonObject),
}

impl JsonShape for Person {
    open spec fn shape(j: JsonValue, v: Person) -> bool {
        match v {
            Person::String(x) => String::shape(j, x),
            Person::Object(x) => PersonObject::shape(j, x),
        }
    }

    open spec fn written(j: JsonValue, v: Person) -> bool {
        match v {
            Person::String(x) => String::written(j, x),
            Person::Object(x) => PersonObject::written(j, x),
        }
    }

    open spec fn decodable(j: JsonValue) -> bool {
        String::decodable(j) || PersonObject::decodable(j)
    }

    open spec fn same(a: Person, b: Person) -> bool {
        match (a, b) {
            (Person::String(x), Person::String(y)) => String::same(x, y),
            (Person::Object(x), Person::Object(y)) => PersonObject::same(x, y),
            _ => false,
        }
    }

    open spec fn wf(v: Person) -> bool {
        match v {
            Person::String(x) => String::wf(x),
            Person::Object(x) => PersonObject::wf(x),
        }
    }

    open spec fn nullable() -> bool {
        false
    }

    fn from_json(j: JsonValue) -> (r: Result<Person, DecodeError>) {
        if matches!(j, JsonValue::Str(_)) {
            match String::from_json(j) {
                Ok(x) => Ok(Person::String(x)),
                Err(e) => Err(e),
            }
        } else {
            match PersonObject::from_json(j) {
                Ok(x) => Ok(Person::Object(x)),
                Err(e) => Err(e),
            }
        }
    }

    fn into_json(self) -> (j: JsonValue) {
        match self {
            Person::String(x) => x.into_json(),
            Person::Object(x) => x.into_json(),
        }
    }

    proof fn lemma_shape(j: JsonValue, a: Person, b: Person) {
        match a {
            Person::String(x) => {
                String::lemma_shape(j, x, x);
                if let Person::String(y) = b {
                    String::lemma_shape(j, x, y);
                }
            },
            Person::Object(x) => {
                PersonObject::lemma_shape(j, x, x);
                if let Person::Object(y) = b {
                    PersonObject::lemma_shape(j, x, y);
                }
            },
        }
    }
}

/// Where to report issues: an email address or url, or an object with both.
#[derive(Debug)]
pub enum Bug {
    /// An email address or a url.
    EmailOrUrl(String),
    /// The structured form.
    Object(BugObject),
}

impl JsonShape for Bug {
    open spec fn shape(j: JsonValue, v: Bug) -> bool {
        match v {
            Bug::EmailOrUrl(x) => String::shape(j, x),
            Bug::Object(x) => BugObject::shape(j, x),
        }
    }

    open spec fn written(j: JsonValue, v: Bug) -> bool {
        match v {
            Bug::EmailOrUrl(x) => String::written(j, x),
            Bug::Object(x) => BugObject::written(j, x),
        }
    }

    open spec fn decodable(j: JsonValue) -> bool {
        String::decodable(j) || BugObject::decodable(j)
    }

    open spec fn same(a: Bug, b: Bug) -> bool {
        match (a, b) {
            (Bug::EmailOrUrl(x), Bug::EmailOrUrl(y)) => String::same(x, y),
            (Bug::Object(x), Bug::Object(y)) => BugObject::same(x, y),
            _ => false,
        }
    }

    open spec fn wf(v: Bug) -> bool {
        match v {
            Bug::EmailOrUrl(x) => String::wf(x),
            Bug::Object(x) => BugObject::wf(x),
        }
    }

    open spec fn nullable() -> bool {
        false
    }

    fn from_json(j: JsonValue) -> (r: Result<Bug, DecodeError>) {
        if matches!(j, JsonValue::Str(_)) {
            match String::from_json(j) {
                Ok(x) => Ok(Bug::EmailOrUrl(x)),
                Err(e) => Err(e),
            }
        } else {
            match BugObject::from_json(j) {
                Ok(x) => Ok(Bug::Object(x)),
                Err(e) => Err(e),
            }
        }
    }

    fn into_json(self) -> (j: JsonValue) {
        match self {
            Bug::EmailOrUrl(x) => x.into_json(),
            Bug::Object(x) => x.into_json(),
        }
    }

    proof fn lemma_shape(j: JsonValue, a: Bug, b: Bug) {
        match a {
            Bug::EmailOrUrl(x) => {
                String::lemma_shape(j, x, x);
                if let Bug::EmailOrUrl(y) = b {
                    String::lemma_shape(j, x, y);
                }
            },
            Bug::Object(x) => {
                BugObject::lemma_shape(j, x, x);
                if let Bug::Object(y) = b {
                    BugObject::lemma_shape(j, x, y);
                }
            },
        }
    }
}

/// Man pages: a single file or a list of files.
#[derive(Debug)]
pub enum Man {
    /// A single file.
    Path(String),
    /// A list of files.
    Object(Vec<String>),
}

impl JsonShape for Man {
    open spec fn shape(j: JsonValue, v: Man) -> bool {
        match v {
            Man::Path(x) => String::shape(j, x),
            Man::Object(x) => <Vec<String>>::shape(j, x),
        }
    }

    open spec fn written(j: JsonValue, v: Man) -> bool {
        match v {
            Man::Path(x) => String::written(j, x),
            Man::Object(x) => <Vec<String>>::written(j, x),
        }
    }

    open spec fn decodable(j: JsonValue) -> bool {
        String::decodable(j) || <Vec<String>>::decodable(j)
    }

    open spec fn same(a: Man, b: Man) -> bool {
        match (a, b) {
            (Man::Path(x), Man::Path(y)) => String::same(x, y),
            (Man::Object(x), Man::Object(y)) => <Vec<String>>::same(x, y),
            _ => false,
        }
    }

    open spec fn wf(v: Man) -> bool {
        match v {
            Man::Path(x) => String::wf(x),
            Man::Object(x) => <Vec<String>>::wf(x),
        }
    }

    open spec fn nullable() -> bool {
        false
    }

    fn from_json(j: JsonValue) -> (r: Result<Man, DecodeError>) {
        if matches!(j, JsonValue::Str(_)) {
            match String::from_json(j) {
                Ok(x) => Ok(Man::Path(x)),
                Err(e) => Err(e),
            }
        } else {
            match <Vec<String>>::from_json(j) {
                Ok(x) => Ok(Man::Object(x)),
                Err(e) => Err(e),
            }
        }
    }

    fn into_json(self) -> (j: JsonValue) {
        match self {
            Man::Path(x) => x.into_json(),
            Man::Object(x) => x.into_json(),
        }
    }

    proof fn lemma_shape(j: JsonValue, a: Man, b: Man) {
        match a {
            Man::Path(x) => {
                String::lemma_shape(j, x, x);
                if let Man::Path(y) = b {
                    String::lemma_shape(j, x, y);
                }
            },
            Man::Object(x) => {
                <Vec<String>>::lemma_shape(j, x, x);
                if let Man::Object(y) = b {
                    <Vec<String>>::lemma_shape(j, x, y);
                }
            },
        }
    }
}

/// An entry point: a single module, or named modules.
#[derive(Debug)]
pub enum EsNext {
    /// A single module.
    Path(String),
    /// Named modules, in order.
    Object(OrderedMap<String>),
}

impl JsonShape for EsNext {
    open spec fn shape(j: JsonValue, v: EsNext) -> bool {
        match v {
            EsNext::Path(x) => String::shape(j, x),
            EsNext::Object(x) => <OrderedMap<String>>::shape(j, x),
        }
    }

    open spec fn written(j: JsonValue, v: EsNext) -> bool {
        match v {
            EsNext::Path(x) => String::written(j, x),
            EsNext::Object(x) => <OrderedMap<String>>::written(j, x),
        }
    }

    open spec fn decodable(j: JsonValue) -> bool {
        String::decodable(j) || <OrderedMap<String>>::decodable(j)
    }

    open spec fn same(a: EsNext, b: EsNext) -> bool {
        match (a, b) {
            (EsNext::Path(x), EsNext::Path(y)) => String::same(x, y),
            (EsNext::Object(x), EsNext::Object(y)) => <OrderedMap<String>>::same(x, y),
            _ => false,
        }
    }

    open spec fn wf(v: EsNext) -> bool {
        match v {
            EsNext::Path(x) => String::wf(x),
            EsNext::Object(x) => <OrderedMap<String>>::wf(x),
        }
    }

    open spec fn nullable() -> bool {
        false
    }

    fn from_json(j: JsonValue) -> (r: Result<EsNext, DecodeError>) {
        if matches!(j, JsonValue::Str(_)) {
            match String::from_json(j) {
                Ok(x) => Ok(EsNext::Path(x)),
                Err(e) => Err(e),
            }
        } else {
            match <OrderedMap<String>>::from_json(j) {
                Ok(x) => Ok(EsNext::Object(x)),
                Err(e) => Err(e),
            }
        }
    }

    fn into_json(self) -> (j: JsonValue) {
        match self {
            EsNext::Path(x) => x.into_json(),
            EsNext::Object(x) => x.into_json(),
        }
    }

    proof fn lemma_shape(j: JsonValue, a: EsNext, b: EsNext) {
        match a {
            EsNext::Path(x) => {
                String::lemma_shape(j, x, x);
                if let EsNext::Path(y) = b {
                    String::lemma_shape(j, x, y);
                }
            },
            EsNext::Object(x) => {
                <OrderedMap<String>>::lemma_shape(j, x, x);
                if let EsNext::Object(y) = b {
                    <OrderedMap<String>>::lemma_shape(j, x, y);
                }
            },
        }
    }
}

/// Executables: a single path, or named paths.
#[derive(Debug)]
pub enum Binary {
    /// A single path.
    Path(String),
    /// Named paths, in order.
    Object(OrderedMap<String>),
}

impl JsonShape for Binary {
    open spec fn shape(j: JsonValue, v: Binary) -> bool {
        match v {
            Binary::Path(x) => String::shape(j, x),
            Binary::Object(x) => <OrderedMap<String>>::shape(j, x),
        }
    }

    open spec fn written(j: JsonValue, v: Binary) -> bool {
        match v {
            Binary::Path(x) => String::written(j, x),
            Binary::Object(x) => <OrderedMap<String>>::written(j, x),
        }
    }

    open spec fn decodable(j: JsonValue) -> bool {
        String::decodable(j) || <OrderedMap<String>>::decodable(j)
    }

    open spec fn same(a: Binary, b: Binary) -> bool {
        match (a, b) {
            (Binary::Path(x), Binary::Path(y)) => String::same(x, y),
            (Binary::Object(x), Binary::Object(y)) => <OrderedMap<String>>::same(x, y),
            _ => false,
        }
    }

    open spec fn wf(v: Binary) -> bool {
        match v {
            Binary::Path(x) => String::wf(x),
            Binary::Object(x) => <OrderedMap<String>>::wf(x),
        }
    }

    open spec fn nullable() -> bool {
        false
    }

    fn from_json(j: JsonValue) -> (r: Result<Binary, DecodeError>) {
        if matches!(j, JsonValue::Str(_)) {
            match String::from_json(j) {
                Ok(x) => Ok(Binary::Path(x)),
                Err(e) => Err(e),
            }
        } else {
            match <OrderedMap<String>>::from_json(j) {
                Ok(x) => Ok(Binary::Object(x)),
                Err(e) => Err(e),
            }
        }
    }

    fn into_json(self) -> (j: JsonValue) {
        match self {
            Binary::Path(x) => x.into_json(),
            Binary::Object(x) => x.into_json(),
        }
    }

    proof fn lemma_shape(j: JsonValue, a: Binary, b: Binary) {
        match a {
            Binary::Path(x) => {
                String::lemma_shape(j, x, x);
                if let Binary::Path(y) = b {
                    String::lemma_shape(j, x, y);
                }
            },
            Binary::Object(x) => {
                <OrderedMap<String>>::lemma_shape(j, x, x);
                if let Binary::Object(y) = b {
                    <OrderedMap<String>>::lemma_shape(j, x, y);
                }
            },
        }
    }
}

/// Bundled dependencies: a flag, or a list of package names.
#[derive(Debug)]
pub enum BundledDependencies {
    /// Bundle all dependencies or none.
    Bool(bool),
    /// The names of the packages to bundle.
    List(Vec<String>),
}

impl JsonShape for BundledDependencies {
    open spec fn shape(j: JsonValue, v: BundledDependencies) -> bool {
        match v {
            BundledDependencies::Bool(x) => bool::shape(j, x),
            BundledDependencies::List(x) => <Vec<String>>::shape(j, x),
        }
    }

    open spec fn written(j: JsonValue, v: BundledDependencies) -> bool {
        match v {
            BundledDependencies::Bool(x) => bool::written(j, x),
            BundledDependencies::List(x) => <Vec<String>>::written(j, x),
        }
    }

    open spec fn decodable(j: JsonValue) -> bool {
        bool::decodable(j) || <Vec<String>>::decodable(j)
    }

    open spec fn same(a: BundledDependencies, b: BundledDependencies) -> bool {
        match (a, b) {
            (BundledDependencies::Bool(x), BundledDependencies::Bool(y)) => bool::same(x, y),
            (BundledDependencies::List(x), BundledDependencies::List(y)) => <Vec<String>>::same(x, y),
            _ => false,
        }
    }

    open spec fn wf(v: BundledDependencies) -> bool {
        match v {
            BundledDependencies::Bool(x) => bool::wf(x),
            BundledDependencies::List(x) => <Vec<String>>::wf(x),
        }
    }

    open spec fn nullable() -> bool {
        false
    }

    fn from_json(j: JsonValue) -> (r: Result<BundledDependencies, DecodeError>) {
        if matches!(j, JsonValue::Bool(_)) {
            match bool::from_json(j) {
                Ok(x) => Ok(BundledDependencies::Bool(x)),
                Err(e) => Err(e),
            }
        } else {
            match <Vec<String>>::from_json(j) {
                Ok(x) => Ok(BundledDependencies::List(x)),
                Err(e) => Err(e),
            }
        }
    }

    fn into_json(self) -> (j: JsonValue) {
        match self {
            BundledDependencies::Bool(x) => x.into_json(),
            BundledDependencies::List(x) => x.into_json(),
        }
    }

    proof fn lemma_shape(j: JsonValue, a: BundledDependencies, b: BundledDependencies) {
        match a {
            BundledDependencies::Bool(x) => {
                bool::lemma_shape(j, x, x);
                if let BundledDependencies::Bool(y) = b {
                    bool::lemma_shape(j, x, y);
                }
            },
            BundledDependencies::List(x) => {
                <Vec<String>>::lemma_shape(j, x, x);
                if let BundledDependencies::List(y) = b {
                    <Vec<String>>::lemma_shape(j, x, y);
                }
            },
        }
    }
}

/// Where the code lives: a bare path or url, or an object.
#[derive(Debug)]
pub enum Repository {
    /// A bare path or url.
    Path(String),
    /// The structured form.
    Object(RepositoryObject),
}

impl JsonShape for Repository {
    open spec fn shape(j: JsonValue, v: Repository) -> bool {
        match v {
            Repository::Path(x) => String::shape(j, x),
            Repository::Object(x) => RepositoryObject::shape(j, x),
        }
    }

    open spec fn written(j: JsonValue, v: Repository) -> bool {
        match v {
            Repository::Path(x) => String::written(j, x),
            Repository::Object(x) => RepositoryObject::written(j, x),
        }
    }

    open spec fn decodable(j: JsonValue) -> bool {
        String::decodable(j) || RepositoryObject::decodable(j)
    }

    open spec fn same(a: Repository, b: Repository) -> bool {
        match (a, b) {
            (Repository::Path(x), Repository::Path(y)) => String::same(x, y),
            (Repository::Object(x), Repository::Object(y)) => RepositoryObject::same(x, y),
            _ => false,
        }
    }

    open spec fn wf(v: Repository) -> bool {
        match v {
            Repository::Path(x) => String::wf(x),
            Repository::Object(x) => RepositoryObject::wf(x),
        }
    }

    open spec fn nullable() -> bool {
        false
    }

    fn from_json(j: JsonValue) -> (r: Result<Repository, DecodeError>) {
        if matches!(j, JsonValue::Str(_)) {
            match String::from_json(j) {
                Ok(x) => Ok(Repository::Path(x)),
                Err(e) => Err(e),
            }
        } else {
            match RepositoryObject::from_json(j) {
                Ok(x) => Ok(Repository::Object(x)),
                Err(e) => Err(e),
            }
        }
    }

    fn into_json(self) -> (j: JsonValue) {
        match self {
            Repository::Path(x) => x.into_json(),
            Repository::Object(x) => x.into_json(),
        }
    }

    proof fn lemma_shape(j: JsonValue, a: Repository, b: Repository) {
        match a {
            Repository::Path(x) => {
                String::lemma_shape(j, x, x);
                if let Repository::Path(y) = b {
                    String::lemma_shape(j, x, y);
                }
            },
            Repository::Object(x) => {
                RepositoryObject::lemma_shape(j, x, x);
                if let Repository::Object(y) = b {
                    RepositoryObject::lemma_shape(j, x, y);
                }
            },
        }
    }
}

/// Workspaces: a list of glob paths, or an object with packages and no-hoist lists.
#[derive(Debug)]
pub enum Workspaces {
    /// Workspace package paths; glob patterns are supported.
    List(Vec<String>),
    /// The structured form.
    Object(WorkspacesObject),
}

impl JsonShape for Workspaces {
    open spec fn shape(j: JsonValue, v: Workspaces) -> bool {
        match v {
            Workspaces::List(x) => <Vec<String>>::shape(j, x),
            Workspaces::Object(x) => WorkspacesObject::shape(j, x),
        }
    }

    open spec fn written(j: JsonValue, v: Workspaces) -> bool {
        match v {
            Workspaces::List(x) => <Vec<String>>::written(j, x),
            Workspaces::Object(x) => WorkspacesObject::written(j, x),
        }
    }

    open spec fn decodable(j: JsonValue) -> bool {
        <Vec<String>>::decodable(j) || WorkspacesObject::decodable(j)
    }

    open spec fn same(a: Workspaces, b: Workspaces) -> bool {
        match (a, b) {
            (Workspaces::List(x), Workspaces::List(y)) => <Vec<String>>::same(x, y),
            (Workspaces::Object(x), Workspaces::Object(y)) => WorkspacesObject::same(x, y),
            _ => false,
        }
    }

    open spec fn wf(v: Workspaces) -> bool {
        match v {
            Workspaces::List(x) => <Vec<String>>::wf(x),
            Workspaces::Object(x) => WorkspacesObject::wf(x),
        }
    }

    open spec fn nullable() -> bool {
        false
    }

    fn from_json(j: JsonValue) -> (r: Result<Workspaces, DecodeError>) {
        if matches!(j, JsonValue::Array(_)) {
            match <Vec<String>>::from_json(j) {
                Ok(x) => Ok(Workspaces::List(x)),
                Err(e) => Err(e),
            }
        } else {
            match WorkspacesObject::from_json(j) {
                Ok(x) => Ok(Workspaces::Object(x)),
                Err(e) => Err(e),
            }
        }
    }

    fn into_json(self) -> (j: JsonValue) {
        match self {
            Workspaces::List(x) => x.into_json(),
            Workspaces::Object(x) => x.into_json(),
        }
    }

    proof fn lemma_shape(j: JsonValue, a: Workspaces, b: Workspaces) {
        match a {
            Workspaces::List(x) => {
                <Vec<String>>::lemma_shape(j, x, x);
                if let Workspaces::List(y) = b {
                    <Vec<String>>::lemma_shape(j, x, y);
                }
            },
            Workspaces::Object(x) => {
                WorkspacesObject::lemma_shape(j, x, x);
                if let Workspaces::Object(y) = b {
                    WorkspacesObject::lemma_shape(j, x, y);
                }
            },
        }
    }
}

/// How the package's `.js` files are loaded.
#[derive(Debug, PartialEq, Eq, Structural)]
pub enum Type {
    /// CommonJS modules.
    CommonJS,
    /// ECMAScript modules.
    Module,
}

impl Type {
    /// The names of the values differ.
    pub proof fn lemma_names()
        ensures
            "commonjs"@ != "module"@,
    {
        reveal_strlit("commonjs");
        assert("commonjs"@.len() == 8 && "commonjs"@[0] == 'c');
        reveal_strlit("module");
        assert("module"@.len() == 6 && "module"@[0] == 'm');
    }
}

impl JsonShape for Type {
    open spec fn shape(j: JsonValue, v: Type) -> bool {
        match v {
            Type::CommonJS => j is Str && j->Str_0@ == "commonjs"@,
            Type::Module => j is Str && j->Str_0@ == "module"@,
        }
    }

    open spec fn written(j: JsonValue, v: Type) -> bool {
        Self::shape(j, v)
    }

    open spec fn decodable(j: JsonValue) -> bool {
        j is Str && (j->Str_0@ == "commonjs"@ || j->Str_0@ == "module"@)
    }

    open spec fn same(a: Type, b: Type) -> bool {
        a == b
    }

    open spec fn wf(v: Type) -> bool {
        true
    }

    open spec fn nullable() -> bool {
        false
    }

    fn from_json(j: JsonValue) -> (r: Result<Type, DecodeError>) {
        proof {
            Type::lemma_names();
        }
        match j {
            JsonValue::Str(s) => {
                if key_is(&s, "commonjs") {
                    Ok(Type::CommonJS)
                } else if key_is(&s, "module") {
                    Ok(Type::Module)
                } else {
                    Err(DecodeError::InvalidShape)
                }
            },
            _ => Err(DecodeError::InvalidShape),
        }
    }

    fn into_json(self) -> (j: JsonValue) {
        match self {
            Type::CommonJS => JsonValue::Str("commonjs".to_owned()),
            Type::Module => JsonValue::Str("module".to_owned()),
        }
    }

    proof fn lemma_shape(j: JsonValue, a: Type, b: Type) {
        Type::lemma_names();
    }
}

/// Who may install a published scoped package.
#[derive(Debug, PartialEq, Eq, Structural)]
pub enum PublishConfigAccess {
    /// Everyone.
    Public,
    /// Only the owners.
    Restricted,
}

impl PublishConfigAccess {
    /// The names of the values differ.
    pub proof fn lemma_names()
        ensures
            "public"@ != "restricted"@,
    {
        reveal_strlit("public");
        assert("public"@.len() == 6 && "public"@[0] == 'p');
        reveal_strlit("restricted");
        assert("restricted"@.len() == 10 && "restricted"@[0] == 'r');
    }
}

impl JsonShape for PublishConfigAccess {
    open spec fn shape(j: JsonValue, v: PublishConfigAccess) -> bool {
        match v {
            PublishConfigAccess::Public => j is Str && j->Str_0@ == "public"@,
            PublishConfigAccess::Restricted => j is Str && j->Str_0@ == "restricted"@,
        }
    }

    open spec fn written(j: JsonValue, v: PublishConfigAccess) -> bool {
        Self::shape(j, v)
    }

    open spec fn decodable(j: JsonValue) -> bool {
        j is Str && (j->Str_0@ == "public"@ || j->Str_0@ == "restricted"@)
    }

    open spec fn same(a: PublishConfigAccess, b: PublishConfigAccess) -> bool {
        a == b
    }

    open spec fn wf(v: PublishConfigAccess) -> bool {
        true
    }

    open spec fn nullable() -> bool {
        false
    }

    fn from_json(j: JsonValue) -> (r: Result<PublishConfigAccess, DecodeError>) {
        proof {
            PublishConfigAccess::lemma_names();
        }
        match j {
            JsonValue::Str(s) => {
                if key_is(&s, "public") {
                    Ok(PublishConfigAccess::Public)
                } else if key_is(&s, "restricted") {
                    Ok(PublishConfigAccess::Restricted)
                } else {
                    Err(DecodeError::InvalidShape)
                }
            },
            _ => Err(DecodeError::InvalidShape),
        }
    }

    fn into_json(self) -> (j: JsonValue) {
        match self {
            PublishConfigAccess::Public => JsonValue::Str("public".to_owned()),
            PublishConfigAccess::Restricted => JsonValue::Str("restricted".to_owned()),
        }
    }

    proof fn lemma_shape(j: JsonValue, a: PublishConfigAccess, b: PublishConfigAccess) {
        PublishConfigAccess::lemma_names();
    }
}

impl Type {
    /// Packages are CommonJS unless they say otherwise.
    pub fn default() -> (r: Type)
        ensures
            r == Type::CommonJS,
    {
        Type::CommonJS
    }
}

/// Whether the package may be published: a flag, or the strings "true" and
/// "false".
#[derive(Debug, PartialEq, Eq, Structural)]
pub enum Private {
    /// The string "true".
    True,
    /// The string "false".
    False,
    /// A flag.
    Bool(bool),
}

impl Private {
    /// The two names differ.
    pub proof fn lemma_names()
        ensures
            "true"@ != "false"@,
    {
        reveal_strlit("true");
        reveal_strlit("false");
        assert("true"@.len() == 4 && "false"@.len() == 5);
    }
}

impl JsonShape for Private {
    open spec fn shape(j: JsonValue, v: Private) -> bool {
        match v {
            Private::True => j is Str && j->Str_0@ == "true"@,
            Private::False => j is Str && j->Str_0@ == "false"@,
            Private::Bool(b) => j == JsonValue::Bool(b),
        }
    }

    open spec fn written(j: JsonValue, v: Private) -> bool {
        Self::shape(j, v)
    }

    open spec fn decodable(j: JsonValue) -> bool {
        j is Bool || (j is Str && (j->Str_0@ == "true"@ || j->Str_0@ == "false"@))
    }

    open spec fn same(a: Private, b: Private) -> bool {
        a == b
    }

    open spec fn wf(v: Private) -> bool {
        true
    }

    open spec fn nullable() -> bool {
        false
    }

    fn from_json(j: JsonValue) -> (r: Result<Private, DecodeError>) {
        proof {
            Private::lemma_names();
        }
        match j {
            JsonValue::Bool(b) => Ok(Private::Bool(b)),
            JsonValue::Str(s) => {
                if key_is(&s, "true") {
                    Ok(Private::True)
                } else if key_is(&s, "false") {
                    Ok(Private::False)
                } else {
                    Err(DecodeError::InvalidShape)
                }
            },
            _ => Err(DecodeError::InvalidShape),
        }
    }

    fn into_json(self) -> (j: JsonValue) {
        match self {
            Private::True => JsonValue::Str("true".to_owned()),
            Private::False => JsonValue::Str("false".to_owned()),
            Private::Bool(b) => JsonValue::Bool(b),
        }
    }

    proof fn lemma_shape(j: JsonValue, a: Private, b: Private) {
        Private::lemma_names();
    }
}

/// Every value of the object `j` is a string or `null`: such an object is
/// read as one set of conditions, any other object as conditions by subpath.
pub open spec fn flat(j: JsonValue) -> bool {
    &&& j is Object
    &&& forall|i: int|
        0 <= i < j->Object_0@.len() ==> (#[trigger] j->Object_0@[i]).1 is Str || j->Object_0@[i].1 is Null
}

/// Whether every value of an object is a string or `null`.
pub fn is_flat(j: &JsonValue) -> (r: bool)
    ensures
        r == flat(*j),
{
    match j {
        JsonValue::Object(entries) => {
            let mut i: usize = 0;
            while i < entries.len()
                invariant
                    j is Object && j->Object_0@ == entries@,
                    i <= entries@.len(),
                    forall|k: int| 0 <= k < i ==> (#[trigger] entries@[k]).1 is Str || entries@[k].1 is Null,
                decreases entries@.len() - i,
            {
                match &entries[i].1 {
                    JsonValue::Str(_) => {},
                    JsonValue::Null => {},
                    _ => {
                        assert(!(j->Object_0@[i as int].1 is Str) && !(j->Object_0@[i as int].1 is Null));
                        return false;
                    },
                }
                i += 1;
            }
            true
        },
        _ => false,
    }
}

/// The JSON form of a set of conditions holds only strings.
pub proof fn lemma_conditions_flat(j: JsonValue, o: ExportsObject)
    requires
        ExportsObject::shape(j, o),
    ensures
        flat(j),
{
    let s = j->Object_0@;
    assert forall|i: int| 0 <= i < s.len() implies (#[trigger] s[i]).1 is Str || s[i].1 is Null by {
        lemma_lookup_unique(s, i);
        ExportsObject::lemma_ranks();
        if ExportsObject::rank(s[i].0@) < 0 {
            lemma_filter_has(s, unknown_by(ExportsObject::ranks()), i);
            let f = s.filter(unknown_by(ExportsObject::ranks()));
            let m = choose|m: int| 0 <= m < f.len() && #[trigger] f[m] == s[i];
            assert(String::shape(f[m].1, o.other@[m].1));
        }
    }
}

/// The "exports" field: a single path, one set of conditions, or conditions by
/// subpath.
#[derive(Debug)]
pub enum Exports {
    /// The module path used when the package is imported.
    Path(String),
    /// Module paths by condition.
    Object(ExportsObject),
    /// Conditions by subpath, in order.
    Nested(OrderedMap<ExportsObject>),
}

impl JsonShape for Exports {
    open spec fn shape(j: JsonValue, v: Exports) -> bool {
        match v {
            Exports::Path(s) => j == JsonValue::Str(s),
            Exports::Object(o) => flat(j) && ExportsObject::shape(j, o),
            Exports::Nested(m) => !flat(j) && OrderedMap::<ExportsObject>::shape(j, m),
        }
    }

    open spec fn written(j: JsonValue, v: Exports) -> bool {
        match v {
            Exports::Path(s) => j == JsonValue::Str(s),
            Exports::Object(o) => flat(j) && ExportsObject::written(j, o),
            Exports::Nested(m) => !flat(j) && OrderedMap::<ExportsObject>::written(j, m),
        }
    }

    open spec fn decodable(j: JsonValue) -> bool {
        ||| j is Str
        ||| flat(j) && ExportsObject::decodable(j)
        ||| !flat(j) && OrderedMap::<ExportsObject>::decodable(j)
    }

    open spec fn same(a: Exports, b: Exports) -> bool {
        match (a, b) {
            (Exports::Path(x), Exports::Path(y)) => x == y,
            (Exports::Object(x), Exports::Object(y)) => ExportsObject::same(x, y),
            (Exports::Nested(x), Exports::Nested(y)) => OrderedMap::<ExportsObject>::same(x, y),
            _ => false,
        }
    }

    open spec fn wf(v: Exports) -> bool {
        match v {
            Exports::Path(_) => true,
            Exports::Object(o) => ExportsObject::wf(o),
            Exports::Nested(m) => m@.len() > 0 && OrderedMap::<ExportsObject>::wf(m),
        }
    }

    open spec fn nullable() -> bool {
        false
    }

    fn from_json(j: JsonValue) -> (r: Result<Exports, DecodeError>) {
        if matches!(j, JsonValue::Str(_)) {
            match String::from_json(j) {
                Ok(s) => Ok(Exports::Path(s)),
                Err(e) => Err(e),
            }
        } else if is_flat(&j) {
            match ExportsObject::from_json(j) {
                Ok(o) => Ok(Exports::Object(o)),
                Err(e) => Err(e),
            }
        } else {
            match OrderedMap::<ExportsObject>::from_json(j) {
                Ok(m) => Ok(Exports::Nested(m)),
                Err(e) => Err(e),
            }
        }
    }

    fn into_json(self) -> (j: JsonValue) {
        match self {
            Exports::Path(s) => JsonValue::Str(s),
            Exports::Object(o) => {
                let j = o.into_json();
                proof {
                    lemma_conditions_flat(j, o);
                }
                j
            },
            Exports::Nested(m) => {
                let ghost first = m@[0].1;
                let j = m.into_json();
                proof {
                    assert(ExportsObject::shape(j->Object_0@[0].1, first));
                }
                j
            },
        }
    }

    proof fn lemma_shape(j: JsonValue, a: Exports, b: Exports) {
        match a {
            Exports::Path(_) => {},
            Exports::Object(x) => {
                ExportsObject::lemma_shape(j, x, x);
                if let Exports::Object(y) = b {
                    ExportsObject::lemma_shape(j, x, y);
                }
            },
            Exports::Nested(x) => {
                OrderedMap::<ExportsObject>::lemma_shape(j, x, x);
                if let Exports::Nested(y) = b {
                    OrderedMap::<ExportsObject>::lemma_shape(j, x, y);
                }
            },
        }
    }
}

} // verus!
