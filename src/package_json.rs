use vstd::prelude::*;

use crate::error::{DecodeError, PackageJsonError};
use crate::text::{parse_json, parsed, print_json, printed};
use crate::fields::{
    append_other, decode_field, entries_ok, entries_shape, field_is, field_ok, field_written, laid_out, key_is, lemma_entries,
    lemma_field, lemma_filter_has, lemma_known_step, lemma_lookup_push, lemma_lookup_unique,
    lemma_other_step, lookup, opt_same, ranked, push_field, unknown_by, decode_slot,
};
use crate::json::{keys_unique, JsonValue};
use crate::objects::{Directories, Dist, PublishConfig};
use crate::ordered_map::{unique_keys, OrderedMap};
use crate::shape::JsonShape;
use crate::variants::{Binary, Bug, BundledDependencies, EsNext, Exports, Man, Person, Private, Type, Workspaces};

verus! {

/// A package manifest: every field the format defines, and the keys it does not, in order.
#[derive(Debug)]
pub struct PackageJson {
    /// The name of the package.
    pub name: Option<String>,
    /// The version of the package, which node-semver can parse.
    pub version: Option<String>,
    /// A short description of the package.
    pub description: Option<String>,
    /// Words that help people find the package.
    pub keywords: Option<Vec<String>>,
    /// The url to the project homepage.
    pub homepage: Option<String>,
    /// Where issues with the package are reported.
    pub bugs: Option<Bug>,
    /// The license under which the package may be used.
    pub license: Option<String>,
    /// The person who wrote the package.
    pub author: Option<Person>,
    /// The people who contributed to the package.
    pub contributors: Option<Vec<Person>>,
    /// The people who maintain the package.
    pub maintainers: Option<Vec<Person>>,
    /// The files to include when the package is installed.
    pub files: Option<Vec<String>>,
    /// The module that is the primary entry point.
    pub main: Option<String>,
    /// The paths that importers of the package may reach.
    pub exports: Option<Exports>,
    /// Paths to executable files.
    pub bin: Option<Binary>,
    /// How the package's `.js` files are loaded.
    pub type_: Option<Type>,
    /// The bundled declaration file.
    pub types: Option<String>,
    /// The bundled declaration file, under its other name.
    pub typings: Option<String>,
    /// Declaration overrides by TypeScript version range.
    pub types_versions: Option<OrderedMap<String>>,
    /// Files for the man program.
    pub man: Option<Man>,
    /// Where the parts of the package live.
    pub directories: Option<Directories>,
    /// Where the code lives.
    pub repository: Option<String>,
    /// Script commands by lifecycle event, in order.
    pub scripts: Option<OrderedMap<Option<String>>>,
    /// Configuration for the package's scripts, in order.
    pub config: Option<OrderedMap<JsonValue>>,
    /// Dependencies: package name to version range, in order.
    pub dependencies: Option<OrderedMap<String>>,
    /// Development dependencies, in order.
    pub dev_dependencies: Option<OrderedMap<String>>,
    /// Optional dependencies, in order.
    pub optional_dependencies: Option<OrderedMap<String>>,
    /// Peer dependencies, in order.
    pub peer_dependencies: Option<OrderedMap<String>>,
    /// The dependencies bundled when publishing.
    pub bundled_dependencies: Option<BundledDependencies>,
    /// Selected versions of transitive dependencies, in order.
    pub resolutions: Option<OrderedMap<String>>,
    /// The package manager expected to be used on the project.
    pub package_manager: Option<String>,
    /// The versions of runtimes the package works on, in order.
    pub engines: Option<OrderedMap<String>>,
    /// Whether the engines field is enforced.
    pub engine_strict: Option<bool>,
    /// The operating systems the package runs on.
    pub os: Option<Vec<String>>,
    /// The cpu architectures the package runs on.
    pub cpu: Option<Vec<String>>,
    /// Whether publishing is refused.
    pub private: Option<Private>,
    /// Settings used when publishing.
    pub publish_config: Option<PublishConfig>,
    /// Details of the published tarball.
    pub dist: Option<Dist>,
    /// The readme's text.
    pub readme: Option<String>,
    /// The ECMAScript module that is the primary entry point.
    pub module: Option<EsNext>,
    /// The entry point for browsers.
    pub browser: Option<EsNext>,
    /// The packages of the workspace.
    pub workspaces: Option<Workspaces>,
    /// Every key that no field names, with its value, in document order.
    pub other: OrderedMap<JsonValue>,
}

impl PackageJson {
    /// The place of `k` among the keys of this record's fields, or -1.
    pub open spec fn rank(k: Seq<char>) -> int {
        if k == "name"@ {
            0
        } else if k == "version"@ {
            1
        } else if k == "description"@ {
            2
        } else if k == "keywords"@ {
            3
        } else if k == "homepage"@ {
            4
        } else if k == "bugs"@ {
            5
        } else if k == "license"@ {
            6
        } else if k == "author"@ {
            7
        } else if k == "contributors"@ {
            8
        } else if k == "maintainers"@ {
            9
        } else if k == "files"@ {
            10
        } else if k == "main"@ {
            11
        } else if k == "exports"@ {
            12
        } else if k == "bin"@ {
            13
        } else if k == "type"@ {
            14
        } else if k == "types"@ {
            15
        } else if k == "typings"@ {
            16
        } else if k == "typesVersions"@ {
            17
        } else if k == "man"@ {
            18
        } else if k == "directories"@ {
            19
        } else if k == "repository"@ {
            20
        } else if k == "scripts"@ {
            21
        } else if k == "config"@ {
            22
        } else if k == "dependencies"@ {
            23
        } else if k == "devDependencies"@ {
            24
        } else if k == "optionalDependencies"@ {
            25
        } else if k == "peerDependencies"@ {
            26
        } else if k == "bundledDependencies"@ {
            27
        } else if k == "resolutions"@ {
            28
        } else if k == "packageManager"@ {
            29
        } else if k == "engines"@ {
            30
        } else if k == "engineStrict"@ {
            31
        } else if k == "os"@ {
            32
        } else if k == "cpu"@ {
            33
        } else if k == "private"@ {
            34
        } else if k == "publishConfig"@ {
            35
        } else if k == "dist"@ {
            36
        } else if k == "readme"@ {
            37
        } else if k == "module"@ {
            38
        } else if k == "browser"@ {
            39
        } else if k == "workspaces"@ {
            40
        } else {
            -1
        }
    }

    /// The key of the field at place `p`.
    pub open spec fn key_of(p: int) -> Seq<char> {
        if p == 0 {
            "name"@
        } else if p == 1 {
            "version"@
        } else if p == 2 {
            "description"@
        } else if p == 3 {
            "keywords"@
        } else if p == 4 {
            "homepage"@
        } else if p == 5 {
            "bugs"@
        } else if p == 6 {
            "license"@
        } else if p == 7 {
            "author"@
        } else if p == 8 {
            "contributors"@
        } else if p == 9 {
            "maintainers"@
        } else if p == 10 {
            "files"@
        } else if p == 11 {
            "main"@
        } else if p == 12 {
            "exports"@
        } else if p == 13 {
            "bin"@
        } else if p == 14 {
            "type"@
        } else if p == 15 {
            "types"@
        } else if p == 16 {
            "typings"@
        } else if p == 17 {
            "typesVersions"@
        } else if p == 18 {
            "man"@
        } else if p == 19 {
            "directories"@
        } else if p == 20 {
            "repository"@
        } else if p == 21 {
            "scripts"@
        } else if p == 22 {
            "config"@
        } else if p == 23 {
            "dependencies"@
        } else if p == 24 {
            "devDependencies"@
        } else if p == 25 {
            "optionalDependencies"@
        } else if p == 26 {
            "peerDependencies"@
        } else if p == 27 {
            "bundledDependencies"@
        } else if p == 28 {
            "resolutions"@
        } else if p == 29 {
            "packageManager"@
        } else if p == 30 {
            "engines"@
        } else if p == 31 {
            "engineStrict"@
        } else if p == 32 {
            "os"@
        } else if p == 33 {
            "cpu"@
        } else if p == 34 {
            "private"@
        } else if p == 35 {
            "publishConfig"@
        } else if p == 36 {
            "dist"@
        } else if p == 37 {
            "readme"@
        } else if p == 38 {
            "module"@
        } else if p == 39 {
            "browser"@
        } else if p == 40 {
            "workspaces"@
        } else {
            Seq::empty()
        }
    }

    /// The place of `key` among the keys of this record's fields, or -1.
    pub fn rank_of(key: &String) -> (r: i64)
        ensures
            r == Self::rank(key@),
    {
        proof {
            Self::lemma_ranks();
        }
        if key_is(key, "name") {
            0
        } else if key_is(key, "version") {
            1
        } else if key_is(key, "description") {
            2
        } else if key_is(key, "keywords") {
            3
        } else if key_is(key, "homepage") {
            4
        } else if key_is(key, "bugs") {
            5
        } else if key_is(key, "license") {
            6
        } else if key_is(key, "author") {
            7
        } else if key_is(key, "contributors") {
            8
        } else if key_is(key, "maintainers") {
            9
        } else if key_is(key, "files") {
            10
        } else if key_is(key, "main") {
            11
        } else if key_is(key, "exports") {
            12
        } else if key_is(key, "bin") {
            13
        } else if key_is(key, "type") {
            14
        } else if key_is(key, "types") {
            15
        } else if key_is(key, "typings") {
            16
        } else if key_is(key, "typesVersions") {
            17
        } else if key_is(key, "man") {
            18
        } else if key_is(key, "directories") {
            19
        } else if key_is(key, "repository") {
            20
        } else if key_is(key, "scripts") {
            21
        } else if key_is(key, "config") {
            22
        } else if key_is(key, "dependencies") {
            23
        } else if key_is(key, "devDependencies") {
            24
        } else if key_is(key, "optionalDependencies") {
            25
        } else if key_is(key, "peerDependencies") {
            26
        } else if key_is(key, "bundledDependencies") {
            27
        } else if key_is(key, "resolutions") {
            28
        } else if key_is(key, "packageManager") {
            29
        } else if key_is(key, "engines") {
            30
        } else if key_is(key, "engineStrict") {
            31
        } else if key_is(key, "os") {
            32
        } else if key_is(key, "cpu") {
            33
        } else if key_is(key, "private") {
            34
        } else if key_is(key, "publishConfig") {
            35
        } else if key_is(key, "dist") {
            36
        } else if key_is(key, "readme") {
            37
        } else if key_is(key, "module") {
            38
        } else if key_is(key, "browser") {
            39
        } else if key_is(key, "workspaces") {
            40
        } else {
            -1
        }
    }

    /// Each field's key has its place.
    pub proof fn lemma_ranks()
        ensures
            PackageJson::rank("name"@) == 0,
            PackageJson::rank("version"@) == 1,
            PackageJson::rank("description"@) == 2,
            PackageJson::rank("keywords"@) == 3,
            PackageJson::rank("homepage"@) == 4,
            PackageJson::rank("bugs"@) == 5,
            PackageJson::rank("license"@) == 6,
            PackageJson::rank("author"@) == 7,
            PackageJson::rank("contributors"@) == 8,
            PackageJson::rank("maintainers"@) == 9,
            PackageJson::rank("files"@) == 10,
            PackageJson::rank("main"@) == 11,
            PackageJson::rank("exports"@) == 12,
            PackageJson::rank("bin"@) == 13,
            PackageJson::rank("type"@) == 14,
            PackageJson::rank("types"@) == 15,
            PackageJson::rank("typings"@) == 16,
            PackageJson::rank("typesVersions"@) == 17,
            PackageJson::rank("man"@) == 18,
            PackageJson::rank("directories"@) == 19,
            PackageJson::rank("repository"@) == 20,
            PackageJson::rank("scripts"@) == 21,
            PackageJson::rank("config"@) == 22,
            PackageJson::rank("dependencies"@) == 23,
            PackageJson::rank("devDependencies"@) == 24,
            PackageJson::rank("optionalDependencies"@) == 25,
            PackageJson::rank("peerDependencies"@) == 26,
            PackageJson::rank("bundledDependencies"@) == 27,
            PackageJson::rank("resolutions"@) == 28,
            PackageJson::rank("packageManager"@) == 29,
            PackageJson::rank("engines"@) == 30,
            PackageJson::rank("engineStrict"@) == 31,
            PackageJson::rank("os"@) == 32,
            PackageJson::rank("cpu"@) == 33,
            PackageJson::rank("private"@) == 34,
            PackageJson::rank("publishConfig"@) == 35,
            PackageJson::rank("dist"@) == 36,
            PackageJson::rank("readme"@) == 37,
            PackageJson::rank("module"@) == 38,
            PackageJson::rank("browser"@) == 39,
            PackageJson::rank("workspaces"@) == 40,
            forall|p: int| 0 <= p < 41 ==> #[trigger] PackageJson::rank(PackageJson::key_of(p)) == p,
    {
        reveal_strlit("name");
        assert("name"@.len() == 4 && "name"@[0] == 'n' && "name"@[1] == 'a' && "name"@[2] == 'm' && "name"@[3] == 'e');
        reveal_strlit("version");
        assert("version"@.len() == 7 && "version"@[0] == 'v' && "version"@[1] == 'e' && "version"@[2] == 'r' && "version"@[3] == 's' && "version"@[4] == 'i' && "version"@[5] == 'o' && "version"@[6] == 'n');
        reveal_strlit("description");
        assert("description"@.len() == 11 && "description"@[0] == 'd' && "description"@[1] == 'e' && "description"@[2] == 's' && "description"@[3] == 'c' && "description"@[4] == 'r' && "description"@[5] == 'i' && "description"@[6] == 'p' && "description"@[7] == 't' && "description"@[8] == 'i' && "description"@[9] == 'o' && "description"@[10] == 'n');
        reveal_strlit("keywords");
        assert("keywords"@.len() == 8 && "keywords"@[0] == 'k' && "keywords"@[1] == 'e' && "keywords"@[2] == 'y' && "keywords"@[3] == 'w' && "keywords"@[4] == 'o' && "keywords"@[5] == 'r' && "keywords"@[6] == 'd' && "keywords"@[7] == 's');
        reveal_strlit("homepage");
        assert("homepage"@.len() == 8 && "homepage"@[0] == 'h' && "homepage"@[1] == 'o' && "homepage"@[2] == 'm' && "homepage"@[3] == 'e' && "homepage"@[4] == 'p' && "homepage"@[5] == 'a' && "homepage"@[6] == 'g' && "homepage"@[7] == 'e');
        reveal_strlit("bugs");
        assert("bugs"@.len() == 4 && "bugs"@[0] == 'b' && "bugs"@[1] == 'u' && "bugs"@[2] == 'g' && "bugs"@[3] == 's');
        reveal_strlit("license");
        assert("license"@.len() == 7 && "license"@[0] == 'l' && "license"@[1] == 'i' && "license"@[2] == 'c' && "license"@[3] == 'e' && "license"@[4] == 'n' && "license"@[5] == 's' && "license"@[6] == 'e');
        reveal_strlit("author");
        assert("author"@.len() == 6 && "author"@[0] == 'a' && "author"@[1] == 'u' && "author"@[2] == 't' && "author"@[3] == 'h' && "author"@[4] == 'o' && "author"@[5] == 'r');
        reveal_strlit("contributors");
        assert("contributors"@.len() == 12 && "contributors"@[0] == 'c' && "contributors"@[1] == 'o' && "contributors"@[2] == 'n' && "contributors"@[3] == 't' && "contributors"@[4] == 'r' && "contributors"@[5] == 'i' && "contributors"@[6] == 'b' && "contributors"@[7] == 'u' && "contributors"@[8] == 't' && "contributors"@[9] == 'o' && "contributors"@[10] == 'r' && "contributors"@[11] == 's');
        reveal_strlit("maintainers");
        assert("maintainers"@.len() == 11 && "maintainers"@[0] == 'm' && "maintainers"@[1] == 'a' && "maintainers"@[2] == 'i' && "maintainers"@[3] == 'n' && "maintainers"@[4] == 't' && "maintainers"@[5] == 'a' && "maintainers"@[6] == 'i' && "maintainers"@[7] == 'n' && "maintainers"@[8] == 'e' && "maintainers"@[9] == 'r' && "maintainers"@[10] == 's');
        reveal_strlit("files");
        assert("files"@.len() == 5 && "files"@[0] == 'f' && "files"@[1] == 'i' && "files"@[2] == 'l' && "files"@[3] == 'e' && "files"@[4] == 's');
        reveal_strlit("main");
        assert("main"@.len() == 4 && "main"@[0] == 'm' && "main"@[1] == 'a' && "main"@[2] == 'i' && "main"@[3] == 'n');
        reveal_strlit("exports");
        assert("exports"@.len() == 7 && "exports"@[0] == 'e' && "exports"@[1] == 'x' && "exports"@[2] == 'p' && "exports"@[3] == 'o' && "exports"@[4] == 'r' && "exports"@[5] == 't' && "exports"@[6] == 's');
        reveal_strlit("bin");
        assert("bin"@.len() == 3 && "bin"@[0] == 'b' && "bin"@[1] == 'i' && "bin"@[2] == 'n');
        reveal_strlit("type");
        assert("type"@.len() == 4 && "type"@[0] == 't' && "type"@[1] == 'y' && "type"@[2] == 'p' && "type"@[3] == 'e');
        reveal_strlit("types");
        assert("types"@.len() == 5 && "types"@[0] == 't' && "types"@[1] == 'y' && "types"@[2] == 'p' && "types"@[3] == 'e' && "types"@[4] == 's');
        reveal_strlit("typings");
        assert("typings"@.len() == 7 && "typings"@[0] == 't' && "typings"@[1] == 'y' && "typings"@[2] == 'p' && "typings"@[3] == 'i' && "typings"@[4] == 'n' && "typings"@[5] == 'g' && "typings"@[6] == 's');
        reveal_strlit("typesVersions");
        assert("typesVersions"@.len() == 13 && "typesVersions"@[0] == 't' && "typesVersions"@[1] == 'y' && "typesVersions"@[2] == 'p' && "typesVersions"@[3] == 'e' && "typesVersions"@[4] == 's' && "typesVersions"@[5] == 'V' && "typesVersions"@[6] == 'e' && "typesVersions"@[7] == 'r' && "typesVersions"@[8] == 's' && "typesVersions"@[9] == 'i' && "typesVersions"@[10] == 'o' && "typesVersions"@[11] == 'n' && "typesVersions"@[12] == 's');
        reveal_strlit("man");
        assert("man"@.len() == 3 && "man"@[0] == 'm' && "man"@[1] == 'a' && "man"@[2] == 'n');
        reveal_strlit("directories");
        assert("directories"@.len() == 11 && "directories"@[0] == 'd' && "directories"@[1] == 'i' && "directories"@[2] == 'r' && "directories"@[3] == 'e' && "directories"@[4] == 'c' && "directories"@[5] == 't' && "directories"@[6] == 'o' && "directories"@[7] == 'r' && "directories"@[8] == 'i' && "directories"@[9] == 'e' && "directories"@[10] == 's');
        reveal_strlit("repository");
        assert("repository"@.len() == 10 && "repository"@[0] == 'r' && "repository"@[1] == 'e' && "repository"@[2] == 'p' && "repository"@[3] == 'o' && "repository"@[4] == 's' && "repository"@[5] == 'i' && "repository"@[6] == 't' && "repository"@[7] == 'o' && "repository"@[8] == 'r' && "repository"@[9] == 'y');
        reveal_strlit("scripts");
        assert("scripts"@.len() == 7 && "scripts"@[0] == 's' && "scripts"@[1] == 'c' && "scripts"@[2] == 'r' && "scripts"@[3] == 'i' && "scripts"@[4] == 'p' && "scripts"@[5] == 't' && "scripts"@[6] == 's');
        reveal_strlit("config");
        assert("config"@.len() == 6 && "config"@[0] == 'c' && "config"@[1] == 'o' && "config"@[2] == 'n' && "config"@[3] == 'f' && "config"@[4] == 'i' && "config"@[5] == 'g');
        reveal_strlit("dependencies");
        assert("dependencies"@.len() == 12 && "dependencies"@[0] == 'd' && "dependencies"@[1] == 'e' && "dependencies"@[2] == 'p' && "dependencies"@[3] == 'e' && "dependencies"@[4] == 'n' && "dependencies"@[5] == 'd' && "dependencies"@[6] == 'e' && "dependencies"@[7] == 'n' && "dependencies"@[8] == 'c' && "dependencies"@[9] == 'i' && "dependencies"@[10] == 'e' && "dependencies"@[11] == 's');
        reveal_strlit("devDependencies");
        assert("devDependencies"@.len() == 15 && "devDependencies"@[0] == 'd' && "devDependencies"@[1] == 'e' && "devDependencies"@[2] == 'v' && "devDependencies"@[3] == 'D' && "devDependencies"@[4] == 'e' && "devDependencies"@[5] == 'p' && "devDependencies"@[6] == 'e' && "devDependencies"@[7] == 'n' && "devDependencies"@[8] == 'd' && "devDependencies"@[9] == 'e' && "devDependencies"@[10] == 'n' && "devDependencies"@[11] == 'c' && "devDependencies"@[12] == 'i' && "devDependencies"@[13] == 'e' && "devDependencies"@[14] == 's');
        reveal_strlit("optionalDependencies");
        assert("optionalDependencies"@.len() == 20 && "optionalDependencies"@[0] == 'o' && "optionalDependencies"@[1] == 'p' && "optionalDependencies"@[2] == 't' && "optionalDependencies"@[3] == 'i' && "optionalDependencies"@[4] == 'o' && "optionalDependencies"@[5] == 'n' && "optionalDependencies"@[6] == 'a' && "optionalDependencies"@[7] == 'l' && "optionalDependencies"@[8] == 'D' && "optionalDependencies"@[9] == 'e' && "optionalDependencies"@[10] == 'p' && "optionalDependencies"@[11] == 'e' && "optionalDependencies"@[12] == 'n' && "optionalDependencies"@[13] == 'd' && "optionalDependencies"@[14] == 'e' && "optionalDependencies"@[15] == 'n' && "optionalDependencies"@[16] == 'c' && "optionalDependencies"@[17] == 'i' && "optionalDependencies"@[18] == 'e' && "optionalDependencies"@[19] == 's');
        reveal_strlit("peerDependencies");
        assert("peerDependencies"@.len() == 16 && "peerDependencies"@[0] == 'p' && "peerDependencies"@[1] == 'e' && "peerDependencies"@[2] == 'e' && "peerDependencies"@[3] == 'r' && "peerDependencies"@[4] == 'D' && "peerDependencies"@[5] == 'e' && "peerDependencies"@[6] == 'p' && "peerDependencies"@[7] == 'e' && "peerDependencies"@[8] == 'n' && "peerDependencies"@[9] == 'd' && "peerDependencies"@[10] == 'e' && "peerDependencies"@[11] == 'n' && "peerDependencies"@[12] == 'c' && "peerDependencies"@[13] == 'i' && "peerDependencies"@[14] == 'e' && "peerDependencies"@[15] == 's');
        reveal_strlit("bundledDependencies");
        assert("bundledDependencies"@.len() == 19 && "bundledDependencies"@[0] == 'b' && "bundledDependencies"@[1] == 'u' && "bundledDependencies"@[2] == 'n' && "bundledDependencies"@[3] == 'd' && "bundledDependencies"@[4] == 'l' && "bundledDependencies"@[5] == 'e' && "bundledDependencies"@[6] == 'd' && "bundledDependencies"@[7] == 'D' && "bundledDependencies"@[8] == 'e' && "bundledDependencies"@[9] == 'p' && "bundledDependencies"@[10] == 'e' && "bundledDependencies"@[11] == 'n' && "bundledDependencies"@[12] == 'd' && "bundledDependencies"@[13] == 'e' && "bundledDependencies"@[14] == 'n' && "bundledDependencies"@[15] == 'c' && "bundledDependencies"@[16] == 'i' && "bundledDependencies"@[17] == 'e' && "bundledDependencies"@[18] == 's');
        reveal_strlit("resolutions");
        assert("resolutions"@.len() == 11 && "resolutions"@[0] == 'r' && "resolutions"@[1] == 'e' && "resolutions"@[2] == 's' && "resolutions"@[3] == 'o' && "resolutions"@[4] == 'l' && "resolutions"@[5] == 'u' && "resolutions"@[6] == 't' && "resolutions"@[7] == 'i' && "resolutions"@[8] == 'o' && "resolutions"@[9] == 'n' && "resolutions"@[10] == 's');
        reveal_strlit("packageManager");
        assert("packageManager"@.len() == 14 && "packageManager"@[0] == 'p' && "packageManager"@[1] == 'a' && "packageManager"@[2] == 'c' && "packageManager"@[3] == 'k' && "packageManager"@[4] == 'a' && "packageManager"@[5] == 'g' && "packageManager"@[6] == 'e' && "packageManager"@[7] == 'M' && "packageManager"@[8] == 'a' && "packageManager"@[9] == 'n' && "packageManager"@[10] == 'a' && "packageManager"@[11] == 'g' && "packageManager"@[12] == 'e' && "packageManager"@[13] == 'r');
        reveal_strlit("engines");
        assert("engines"@.len() == 7 && "engines"@[0] == 'e' && "engines"@[1] == 'n' && "engines"@[2] == 'g' && "engines"@[3] == 'i' && "engines"@[4] == 'n' && "engines"@[5] == 'e' && "engines"@[6] == 's');
        reveal_strlit("engineStrict");
        assert("engineStrict"@.len() == 12 && "engineStrict"@[0] == 'e' && "engineStrict"@[1] == 'n' && "engineStrict"@[2] == 'g' && "engineStrict"@[3] == 'i' && "engineStrict"@[4] == 'n' && "engineStrict"@[5] == 'e' && "engineStrict"@[6] == 'S' && "engineStrict"@[7] == 't' && "engineStrict"@[8] == 'r' && "engineStrict"@[9] == 'i' && "engineStrict"@[10] == 'c' && "engineStrict"@[11] == 't');
        reveal_strlit("os");
        assert("os"@.len() == 2 && "os"@[0] == 'o' && "os"@[1] == 's');
        reveal_strlit("cpu");
        assert("cpu"@.len() == 3 && "cpu"@[0] == 'c' && "cpu"@[1] == 'p' && "cpu"@[2] == 'u');
        reveal_strlit("private");
        assert("private"@.len() == 7 && "private"@[0] == 'p' && "private"@[1] == 'r' && "private"@[2] == 'i' && "private"@[3] == 'v' && "private"@[4] == 'a' && "private"@[5] == 't' && "private"@[6] == 'e');
        reveal_strlit("publishConfig");
        assert("publishConfig"@.len() == 13 && "publishConfig"@[0] == 'p' && "publishConfig"@[1] == 'u' && "publishConfig"@[2] == 'b' && "publishConfig"@[3] == 'l' && "publishConfig"@[4] == 'i' && "publishConfig"@[5] == 's' && "publishConfig"@[6] == 'h' && "publishConfig"@[7] == 'C' && "publishConfig"@[8] == 'o' && "publishConfig"@[9] == 'n' && "publishConfig"@[10] == 'f' && "publishConfig"@[11] == 'i' && "publishConfig"@[12] == 'g');
        reveal_strlit("dist");
        assert("dist"@.len() == 4 && "dist"@[0] == 'd' && "dist"@[1] == 'i' && "dist"@[2] == 's' && "dist"@[3] == 't');
        reveal_strlit("readme");
        assert("readme"@.len() == 6 && "readme"@[0] == 'r' && "readme"@[1] == 'e' && "readme"@[2] == 'a' && "readme"@[3] == 'd' && "readme"@[4] == 'm' && "readme"@[5] == 'e');
        reveal_strlit("module");
        assert("module"@.len() == 6 && "module"@[0] == 'm' && "module"@[1] == 'o' && "module"@[2] == 'd' && "module"@[3] == 'u' && "module"@[4] == 'l' && "module"@[5] == 'e');
        reveal_strlit("browser");
        assert("browser"@.len() == 7 && "browser"@[0] == 'b' && "browser"@[1] == 'r' && "browser"@[2] == 'o' && "browser"@[3] == 'w' && "browser"@[4] == 's' && "browser"@[5] == 'e' && "browser"@[6] == 'r');
        reveal_strlit("workspaces");
        assert("workspaces"@.len() == 10 && "workspaces"@[0] == 'w' && "workspaces"@[1] == 'o' && "workspaces"@[2] == 'r' && "workspaces"@[3] == 'k' && "workspaces"@[4] == 's' && "workspaces"@[5] == 'p' && "workspaces"@[6] == 'a' && "workspaces"@[7] == 'c' && "workspaces"@[8] == 'e' && "workspaces"@[9] == 's');
        assert forall|p: int| 0 <= p < 41 implies #[trigger] PackageJson::rank(PackageJson::key_of(p)) == p by {
        if p == 0 {
            assert(PackageJson::key_of(p) == "name"@);
        } else if p == 1 {
            assert(PackageJson::key_of(p) == "version"@);
        } else if p == 2 {
            assert(PackageJson::key_of(p) == "description"@);
        } else if p == 3 {
            assert(PackageJson::key_of(p) == "keywords"@);
        } else if p == 4 {
            assert(PackageJson::key_of(p) == "homepage"@);
        } else if p == 5 {
            assert(PackageJson::key_of(p) == "bugs"@);
        } else if p == 6 {
            assert(PackageJson::key_of(p) == "license"@);
        } else if p == 7 {
            assert(PackageJson::key_of(p) == "author"@);
        } else if p == 8 {
            assert(PackageJson::key_of(p) == "contributors"@);
        } else if p == 9 {
            assert(PackageJson::key_of(p) == "maintainers"@);
        } else if p == 10 {
            assert(PackageJson::key_of(p) == "files"@);
        } else if p == 11 {
            assert(PackageJson::key_of(p) == "main"@);
        } else if p == 12 {
            assert(PackageJson::key_of(p) == "exports"@);
        } else if p == 13 {
            assert(PackageJson::key_of(p) == "bin"@);
        } else if p == 14 {
            assert(PackageJson::key_of(p) == "type"@);
        } else if p == 15 {
            assert(PackageJson::key_of(p) == "types"@);
        } else if p == 16 {
            assert(PackageJson::key_of(p) == "typings"@);
        } else if p == 17 {
            assert(PackageJson::key_of(p) == "typesVersions"@);
        } else if p == 18 {
            assert(PackageJson::key_of(p) == "man"@);
        } else if p == 19 {
            assert(PackageJson::key_of(p) == "directories"@);
        } else if p == 20 {
            assert(PackageJson::key_of(p) == "repository"@);
        } else if p == 21 {
            assert(PackageJson::key_of(p) == "scripts"@);
        } else if p == 22 {
            assert(PackageJson::key_of(p) == "config"@);
        } else if p == 23 {
            assert(PackageJson::key_of(p) == "dependencies"@);
        } else if p == 24 {
            assert(PackageJson::key_of(p) == "devDependencies"@);
        } else if p == 25 {
            assert(PackageJson::key_of(p) == "optionalDependencies"@);
        } else if p == 26 {
            assert(PackageJson::key_of(p) == "peerDependencies"@);
        } else if p == 27 {
            assert(PackageJson::key_of(p) == "bundledDependencies"@);
        } else if p == 28 {
            assert(PackageJson::key_of(p) == "resolutions"@);
        } else if p == 29 {
            assert(PackageJson::key_of(p) == "packageManager"@);
        } else if p == 30 {
            assert(PackageJson::key_of(p) == "engines"@);
        } else if p == 31 {
            assert(PackageJson::key_of(p) == "engineStrict"@);
        } else if p == 32 {
            assert(PackageJson::key_of(p) == "os"@);
        } else if p == 33 {
            assert(PackageJson::key_of(p) == "cpu"@);
        } else if p == 34 {
            assert(PackageJson::key_of(p) == "private"@);
        } else if p == 35 {
            assert(PackageJson::key_of(p) == "publishConfig"@);
        } else if p == 36 {
            assert(PackageJson::key_of(p) == "dist"@);
        } else if p == 37 {
            assert(PackageJson::key_of(p) == "readme"@);
        } else if p == 38 {
            assert(PackageJson::key_of(p) == "module"@);
        } else if p == 39 {
            assert(PackageJson::key_of(p) == "browser"@);
        } else if p == 40 {
            assert(PackageJson::key_of(p) == "workspaces"@);
        }
        }
    }

    pub open spec fn ranks() -> spec_fn(Seq<char>) -> int {
        |k: Seq<char>| PackageJson::rank(k)
    }

    /// The entries `s` of an object read as `v`.
    pub open spec fn fields_are(s: Seq<(String, JsonValue)>, v: PackageJson) -> bool {
        &&& field_is::<String>(s, "name"@, v.name)
        &&& field_is::<String>(s, "version"@, v.version)
        &&& field_is::<String>(s, "description"@, v.description)
        &&& field_is::<Vec<String>>(s, "keywords"@, v.keywords)
        &&& field_is::<String>(s, "homepage"@, v.homepage)
        &&& field_is::<Bug>(s, "bugs"@, v.bugs)
        &&& field_is::<String>(s, "license"@, v.license)
        &&& field_is::<Person>(s, "author"@, v.author)
        &&& field_is::<Vec<Person>>(s, "contributors"@, v.contributors)
        &&& field_is::<Vec<Person>>(s, "maintainers"@, v.maintainers)
        &&& field_is::<Vec<String>>(s, "files"@, v.files)
        &&& field_is::<String>(s, "main"@, v.main)
        &&& field_is::<Exports>(s, "exports"@, v.exports)
        &&& field_is::<Binary>(s, "bin"@, v.bin)
        &&& field_is::<Type>(s, "type"@, v.type_)
        &&& field_is::<String>(s, "types"@, v.types)
        &&& field_is::<String>(s, "typings"@, v.typings)
        &&& field_is::<OrderedMap<String>>(s, "typesVersions"@, v.types_versions)
        &&& field_is::<Man>(s, "man"@, v.man)
        &&& field_is::<Directories>(s, "directories"@, v.directories)
        &&& field_is::<String>(s, "repository"@, v.repository)
        &&& field_is::<OrderedMap<Option<String>>>(s, "scripts"@, v.scripts)
        &&& field_is::<OrderedMap<JsonValue>>(s, "config"@, v.config)
        &&& field_is::<OrderedMap<String>>(s, "dependencies"@, v.dependencies)
        &&& field_is::<OrderedMap<String>>(s, "devDependencies"@, v.dev_dependencies)
        &&& field_is::<OrderedMap<String>>(s, "optionalDependencies"@, v.optional_dependencies)
        &&& field_is::<OrderedMap<String>>(s, "peerDependencies"@, v.peer_dependencies)
        &&& field_is::<BundledDependencies>(s, "bundledDependencies"@, v.bundled_dependencies)
        &&& field_is::<OrderedMap<String>>(s, "resolutions"@, v.resolutions)
        &&& field_is::<String>(s, "packageManager"@, v.package_manager)
        &&& field_is::<OrderedMap<String>>(s, "engines"@, v.engines)
        &&& field_is::<bool>(s, "engineStrict"@, v.engine_strict)
        &&& field_is::<Vec<String>>(s, "os"@, v.os)
        &&& field_is::<Vec<String>>(s, "cpu"@, v.cpu)
        &&& field_is::<Private>(s, "private"@, v.private)
        &&& field_is::<PublishConfig>(s, "publishConfig"@, v.publish_config)
        &&& field_is::<Dist>(s, "dist"@, v.dist)
        &&& field_is::<String>(s, "readme"@, v.readme)
        &&& field_is::<EsNext>(s, "module"@, v.module)
        &&& field_is::<EsNext>(s, "browser"@, v.browser)
        &&& field_is::<Workspaces>(s, "workspaces"@, v.workspaces)
        &&& entries_shape::<JsonValue>(s.filter(unknown_by(PackageJson::ranks())), v.other@)
    }

    /// The entries `s` of an object hold each field in its written form.
    pub open spec fn fields_written(s: Seq<(String, JsonValue)>, v: PackageJson) -> bool {
        &&& true
        &&& field_written::<String>(s, "name"@, v.name)
        &&& field_written::<String>(s, "version"@, v.version)
        &&& field_written::<String>(s, "description"@, v.description)
        &&& field_written::<Vec<String>>(s, "keywords"@, v.keywords)
        &&& field_written::<String>(s, "homepage"@, v.homepage)
        &&& field_written::<Bug>(s, "bugs"@, v.bugs)
        &&& field_written::<String>(s, "license"@, v.license)
        &&& field_written::<Person>(s, "author"@, v.author)
        &&& field_written::<Vec<Person>>(s, "contributors"@, v.contributors)
        &&& field_written::<Vec<Person>>(s, "maintainers"@, v.maintainers)
        &&& field_written::<Vec<String>>(s, "files"@, v.files)
        &&& field_written::<String>(s, "main"@, v.main)
        &&& field_written::<Exports>(s, "exports"@, v.exports)
        &&& field_written::<Binary>(s, "bin"@, v.bin)
        &&& field_written::<Type>(s, "type"@, v.type_)
        &&& field_written::<String>(s, "types"@, v.types)
        &&& field_written::<String>(s, "typings"@, v.typings)
        &&& field_written::<OrderedMap<String>>(s, "typesVersions"@, v.types_versions)
        &&& field_written::<Man>(s, "man"@, v.man)
        &&& field_written::<Directories>(s, "directories"@, v.directories)
        &&& field_written::<String>(s, "repository"@, v.repository)
        &&& field_written::<OrderedMap<Option<String>>>(s, "scripts"@, v.scripts)
        &&& field_written::<OrderedMap<JsonValue>>(s, "config"@, v.config)
        &&& field_written::<OrderedMap<String>>(s, "dependencies"@, v.dependencies)
        &&& field_written::<OrderedMap<String>>(s, "devDependencies"@, v.dev_dependencies)
        &&& field_written::<OrderedMap<String>>(s, "optionalDependencies"@, v.optional_dependencies)
        &&& field_written::<OrderedMap<String>>(s, "peerDependencies"@, v.peer_dependencies)
        &&& field_written::<BundledDependencies>(s, "bundledDependencies"@, v.bundled_dependencies)
        &&& field_written::<OrderedMap<String>>(s, "resolutions"@, v.resolutions)
        &&& field_written::<String>(s, "packageManager"@, v.package_manager)
        &&& field_written::<OrderedMap<String>>(s, "engines"@, v.engines)
        &&& field_written::<bool>(s, "engineStrict"@, v.engine_strict)
        &&& field_written::<Vec<String>>(s, "os"@, v.os)
        &&& field_written::<Vec<String>>(s, "cpu"@, v.cpu)
        &&& field_written::<Private>(s, "private"@, v.private)
        &&& field_written::<PublishConfig>(s, "publishConfig"@, v.publish_config)
        &&& field_written::<Dist>(s, "dist"@, v.dist)
        &&& field_written::<String>(s, "readme"@, v.readme)
        &&& field_written::<EsNext>(s, "module"@, v.module)
        &&& field_written::<EsNext>(s, "browser"@, v.browser)
        &&& field_written::<Workspaces>(s, "workspaces"@, v.workspaces)
    }

    /// The entries `s` of an object can be read as this record.
    pub open spec fn fields_ok(s: Seq<(String, JsonValue)>) -> bool {
        &&& field_ok::<String>(s, "name"@)
        &&& field_ok::<String>(s, "version"@)
        &&& field_ok::<String>(s, "description"@)
        &&& field_ok::<Vec<String>>(s, "keywords"@)
        &&& field_ok::<String>(s, "homepage"@)
        &&& field_ok::<Bug>(s, "bugs"@)
        &&& field_ok::<String>(s, "license"@)
        &&& field_ok::<Person>(s, "author"@)
        &&& field_ok::<Vec<Person>>(s, "contributors"@)
        &&& field_ok::<Vec<Person>>(s, "maintainers"@)
        &&& field_ok::<Vec<String>>(s, "files"@)
        &&& field_ok::<String>(s, "main"@)
        &&& field_ok::<Exports>(s, "exports"@)
        &&& field_ok::<Binary>(s, "bin"@)
        &&& field_ok::<Type>(s, "type"@)
        &&& field_ok::<String>(s, "types"@)
        &&& field_ok::<String>(s, "typings"@)
        &&& field_ok::<OrderedMap<String>>(s, "typesVersions"@)
        &&& field_ok::<Man>(s, "man"@)
        &&& field_ok::<Directories>(s, "directories"@)
        &&& field_ok::<String>(s, "repository"@)
        &&& field_ok::<OrderedMap<Option<String>>>(s, "scripts"@)
        &&& field_ok::<OrderedMap<JsonValue>>(s, "config"@)
        &&& field_ok::<OrderedMap<String>>(s, "dependencies"@)
        &&& field_ok::<OrderedMap<String>>(s, "devDependencies"@)
        &&& field_ok::<OrderedMap<String>>(s, "optionalDependencies"@)
        &&& field_ok::<OrderedMap<String>>(s, "peerDependencies"@)
        &&& field_ok::<BundledDependencies>(s, "bundledDependencies"@)
        &&& field_ok::<OrderedMap<String>>(s, "resolutions"@)
        &&& field_ok::<String>(s, "packageManager"@)
        &&& field_ok::<OrderedMap<String>>(s, "engines"@)
        &&& field_ok::<bool>(s, "engineStrict"@)
        &&& field_ok::<Vec<String>>(s, "os"@)
        &&& field_ok::<Vec<String>>(s, "cpu"@)
        &&& field_ok::<Private>(s, "private"@)
        &&& field_ok::<PublishConfig>(s, "publishConfig"@)
        &&& field_ok::<Dist>(s, "dist"@)
        &&& field_ok::<String>(s, "readme"@)
        &&& field_ok::<EsNext>(s, "module"@)
        &&& field_ok::<EsNext>(s, "browser"@)
        &&& field_ok::<Workspaces>(s, "workspaces"@)
        &&& entries_ok::<JsonValue>(s.filter(unknown_by(PackageJson::ranks())))
    }
}

impl JsonShape for PackageJson {
    open spec fn shape(j: JsonValue, v: PackageJson) -> bool {
        &&& j is Object
        &&& keys_unique(j->Object_0@)
        &&& PackageJson::fields_are(j->Object_0@, v)
    }

    open spec fn written(j: JsonValue, v: PackageJson) -> bool {
        &&& Self::shape(j, v)
        &&& PackageJson::fields_written(j->Object_0@, v)
        &&& laid_out(j->Object_0@, PackageJson::ranks(), 41)
    }

    open spec fn decodable(j: JsonValue) -> bool {
        &&& j is Object
        &&& keys_unique(j->Object_0@)
        &&& PackageJson::fields_ok(j->Object_0@)
    }

    open spec fn same(a: PackageJson, b: PackageJson) -> bool {
        &&& opt_same(a.name, b.name)
        &&& opt_same(a.version, b.version)
        &&& opt_same(a.description, b.description)
        &&& opt_same(a.keywords, b.keywords)
        &&& opt_same(a.homepage, b.homepage)
        &&& opt_same(a.bugs, b.bugs)
        &&& opt_same(a.license, b.license)
        &&& opt_same(a.author, b.author)
        &&& opt_same(a.contributors, b.contributors)
        &&& opt_same(a.maintainers, b.maintainers)
        &&& opt_same(a.files, b.files)
        &&& opt_same(a.main, b.main)
        &&& opt_same(a.exports, b.exports)
        &&& opt_same(a.bin, b.bin)
        &&& opt_same(a.type_, b.type_)
        &&& opt_same(a.types, b.types)
        &&& opt_same(a.typings, b.typings)
        &&& opt_same(a.types_versions, b.types_versions)
        &&& opt_same(a.man, b.man)
        &&& opt_same(a.directories, b.directories)
        &&& opt_same(a.repository, b.repository)
        &&& opt_same(a.scripts, b.scripts)
        &&& opt_same(a.config, b.config)
        &&& opt_same(a.dependencies, b.dependencies)
        &&& opt_same(a.dev_dependencies, b.dev_dependencies)
        &&& opt_same(a.optional_dependencies, b.optional_dependencies)
        &&& opt_same(a.peer_dependencies, b.peer_dependencies)
        &&& opt_same(a.bundled_dependencies, b.bundled_dependencies)
        &&& opt_same(a.resolutions, b.resolutions)
        &&& opt_same(a.package_manager, b.package_manager)
        &&& opt_same(a.engines, b.engines)
        &&& opt_same(a.engine_strict, b.engine_strict)
        &&& opt_same(a.os, b.os)
        &&& opt_same(a.cpu, b.cpu)
        &&& opt_same(a.private, b.private)
        &&& opt_same(a.publish_config, b.publish_config)
        &&& opt_same(a.dist, b.dist)
        &&& opt_same(a.readme, b.readme)
        &&& opt_same(a.module, b.module)
        &&& opt_same(a.browser, b.browser)
        &&& opt_same(a.workspaces, b.workspaces)
        &&& OrderedMap::<JsonValue>::same(a.other, b.other)
    }

    open spec fn wf(v: PackageJson) -> bool {
        &&& true
        &&& (v.name is Some ==> String::wf(v.name->Some_0))
        &&& (v.version is Some ==> String::wf(v.version->Some_0))
        &&& (v.description is Some ==> String::wf(v.description->Some_0))
        &&& (v.keywords is Some ==> <Vec<String>>::wf(v.keywords->Some_0))
        &&& (v.homepage is Some ==> String::wf(v.homepage->Some_0))
        &&& (v.bugs is Some ==> Bug::wf(v.bugs->Some_0))
        &&& (v.license is Some ==> String::wf(v.license->Some_0))
        &&& (v.author is Some ==> Person::wf(v.author->Some_0))
        &&& (v.contributors is Some ==> <Vec<Person>>::wf(v.contributors->Some_0))
        &&& (v.maintainers is Some ==> <Vec<Person>>::wf(v.maintainers->Some_0))
        &&& (v.files is Some ==> <Vec<String>>::wf(v.files->Some_0))
        &&& (v.main is Some ==> String::wf(v.main->Some_0))
        &&& (v.exports is Some ==> Exports::wf(v.exports->Some_0))
        &&& (v.bin is Some ==> Binary::wf(v.bin->Some_0))
        &&& (v.type_ is Some ==> Type::wf(v.type_->Some_0))
        &&& (v.types is Some ==> String::wf(v.types->Some_0))
        &&& (v.typings is Some ==> String::wf(v.typings->Some_0))
        &&& (v.types_versions is Some ==> <OrderedMap<String>>::wf(v.types_versions->Some_0))
        &&& (v.man is Some ==> Man::wf(v.man->Some_0))
        &&& (v.directories is Some ==> Directories::wf(v.directories->Some_0))
        &&& (v.repository is Some ==> String::wf(v.repository->Some_0))
        &&& (v.scripts is Some ==> <OrderedMap<Option<String>>>::wf(v.scripts->Some_0))
        &&& (v.config is Some ==> <OrderedMap<JsonValue>>::wf(v.config->Some_0))
        &&& (v.dependencies is Some ==> <OrderedMap<String>>::wf(v.dependencies->Some_0))
        &&& (v.dev_dependencies is Some ==> <OrderedMap<String>>::wf(v.dev_dependencies->Some_0))
        &&& (v.optional_dependencies is Some ==> <OrderedMap<String>>::wf(v.optional_dependencies->Some_0))
        &&& (v.peer_dependencies is Some ==> <OrderedMap<String>>::wf(v.peer_dependencies->Some_0))
        &&& (v.bundled_dependencies is Some ==> BundledDependencies::wf(v.bundled_dependencies->Some_0))
        &&& (v.resolutions is Some ==> <OrderedMap<String>>::wf(v.resolutions->Some_0))
        &&& (v.package_manager is Some ==> String::wf(v.package_manager->Some_0))
        &&& (v.engines is Some ==> <OrderedMap<String>>::wf(v.engines->Some_0))
        &&& (v.engine_strict is Some ==> bool::wf(v.engine_strict->Some_0))
        &&& (v.os is Some ==> <Vec<String>>::wf(v.os->Some_0))
        &&& (v.cpu is Some ==> <Vec<String>>::wf(v.cpu->Some_0))
        &&& (v.private is Some ==> Private::wf(v.private->Some_0))
        &&& (v.publish_config is Some ==> PublishConfig::wf(v.publish_config->Some_0))
        &&& (v.dist is Some ==> Dist::wf(v.dist->Some_0))
        &&& (v.readme is Some ==> String::wf(v.readme->Some_0))
        &&& (v.module is Some ==> EsNext::wf(v.module->Some_0))
        &&& (v.browser is Some ==> EsNext::wf(v.browser->Some_0))
        &&& (v.workspaces is Some ==> Workspaces::wf(v.workspaces->Some_0))
        &&& OrderedMap::<JsonValue>::wf(v.other)
        &&& forall|i: int| 0 <= i < v.other@.len() ==> PackageJson::rank((#[trigger] v.other@[i]).0@) < 0
    }

    open spec fn nullable() -> bool {
        false
    }

    #[verifier::rlimit(100)]
    fn from_json(j: JsonValue) -> (r: Result<PackageJson, DecodeError>) {
        let ghost j0 = j;
        let input = j;
        match input {
            JsonValue::Object(entries) => {
                if !unique_keys(&entries) {
                    return Err(DecodeError::DuplicateKey);
                }
                let ghost all = entries@;
                let mut entries = entries;
                let mut slots: Vec<Option<JsonValue>> = Vec::new();
                let mut q: usize = 0;
                while q < 41
                    invariant
                        q <= 41,
                        slots@.len() == q,
                        forall|p: int| 0 <= p < q ==> (#[trigger] slots@[p]) is None,
                    decreases 41 - q,
                {
                    slots.push(None);
                    q += 1;
                }
                let mut other: OrderedMap<JsonValue> = OrderedMap::new();
                let n = entries.len();
                let mut i: usize = 0;
                proof {
                    assert(all.take(0) =~= Seq::<(String, JsonValue)>::empty());
                }
                while i < n
                    invariant
                        j0 == j,
                        j0 is Object && j0->Object_0@ == all,
                        keys_unique(all),
                        n == all.len(),
                        i <= n,
                        entries@ == all.subrange(i as int, n as int),
                        slots@.len() == 41,
                        forall|p: int| 0 <= p < 41 ==> #[trigger] slots@[p] == lookup(all.take(i as int), PackageJson::key_of(p)),
                        entries_shape::<JsonValue>(all.take(i as int).filter(unknown_by(PackageJson::ranks())), other@),
                        forall|m: int, k: int| 0 <= m < other@.len() && i <= k < n ==> (#[trigger] other@[m]).0@ != (#[trigger] all[k]).0@,
                        forall|m: int| 0 <= m < other@.len() ==> JsonValue::wf((#[trigger] other@[m]).1) && PackageJson::rank(other@[m].0@) < 0,
                    decreases n - i,
                {
                    proof {
                        PackageJson::lemma_ranks();
                    }
                    let (key, x) = entries.remove(0);
                    proof {
                        assert(key == all[i as int].0 && x == all[i as int].1);
                        assert(all.take(i + 1) == all.take(i as int).push(all[i as int]));
                        lemma_lookup_unique(all, i as int);
                    }
                    let r = PackageJson::rank_of(&key);
                    if r >= 0 {
                        proof {
                            assert(!(unknown_by(PackageJson::ranks()))(all[i as int]));
                            lemma_known_step(all.take(i as int), all[i as int], other@, unknown_by(PackageJson::ranks()));
                        }
                        let ghost before = slots@;
                        slots.set(r as usize, Some(x));
                        proof {
                            assert forall|p: int| 0 <= p < 41 implies #[trigger] slots@[p] == lookup(all.take(i + 1), PackageJson::key_of(p)) by {
                                lemma_lookup_push(all.take(i as int), all[i as int], PackageJson::key_of(p));
                                assert(PackageJson::rank(PackageJson::key_of(p)) == p);
                            }
                        }
                    } else {
                        proof {
                            assert(forall|m: int| 0 <= m < other@.len() ==> (#[trigger] other@[m]).0@ != all[i as int].0@);
                            assert forall|p: int| 0 <= p < 41 implies #[trigger] slots@[p] == lookup(all.take(i + 1), PackageJson::key_of(p)) by {
                                lemma_lookup_push(all.take(i as int), all[i as int], PackageJson::key_of(p));
                                assert(PackageJson::rank(PackageJson::key_of(p)) == p);
                            }
                        }
                        let ghost before = other@;
                        match JsonValue::from_json(x) {
                            Ok(v) => {
                                let ghost vv = v;
                                other.insert(key, v);
                                proof {
                                    assert(other@ == before.push((all[i as int].0, vv)));
                                    assert((unknown_by(PackageJson::ranks()))(all[i as int]));
                                    lemma_other_step(all.take(i as int), all[i as int], before, vv, unknown_by(PackageJson::ranks()));
                                    assert forall|m: int| 0 <= m < other@.len() implies JsonValue::wf((#[trigger] other@[m]).1) && PackageJson::rank(other@[m].0@) < 0 by {
                                        if m < before.len() {
                                            assert(other@[m] == before[m]);
                                        } else {
                                            assert(other@[m] == (all[i as int].0, vv));
                                        }
                                    }
                                    assert forall|m: int, k: int| 0 <= m < other@.len() && i + 1 <= k < n implies (#[trigger] other@[m]).0@ != (#[trigger] all[k]).0@ by {
                                        if m < before.len() {
                                            assert(other@[m] == before[m]);
                                        } else {
                                            assert(all[i as int].0@ != all[k].0@);
                                        }
                                    }
                                }
                            },
                            Err(e) => {
                                proof {
                                    lemma_filter_has(all, unknown_by(PackageJson::ranks()), i as int);
                                }
                                return Err(e);
                            },
                        }
                    }
                    i += 1;
                }
                proof {
                    assert(all.take(n as int) == all);
                    PackageJson::lemma_ranks();
                }
                let ghost sl = slots@;
                let s = match slots.pop() {
                    Some(v) => v,
                    None => None,
                };
                proof {
                    assert(s == sl[40]);
                    assert(PackageJson::key_of(40) == "workspaces"@);
                }
                let workspaces = match decode_slot::<Workspaces>(s) {
                    Ok(v) => v,
                    Err(e) => {
                        return Err(e);
                    },
                };
                let s = match slots.pop() {
                    Some(v) => v,
                    None => None,
                };
                proof {
                    assert(s == sl[39]);
                    assert(PackageJson::key_of(39) == "browser"@);
                }
                let browser = match decode_slot::<EsNext>(s) {
                    Ok(v) => v,
                    Err(e) => {
                        return Err(e);
                    },
                };
                let s = match slots.pop() {
                    Some(v) => v,
                    None => None,
                };
                proof {
                    assert(s == sl[38]);
                    assert(PackageJson::key_of(38) == "module"@);
                }
                let module = match decode_slot::<EsNext>(s) {
                    Ok(v) => v,
                    Err(e) => {
                        return Err(e);
                    },
                };
                let s = match slots.pop() {
                    Some(v) => v,
                    None => None,
                };
                proof {
                    assert(s == sl[37]);
                    assert(PackageJson::key_of(37) == "readme"@);
                }
                let readme = match decode_slot::<String>(s) {
                    Ok(v) => v,
                    Err(e) => {
                        return Err(e);
                    },
                };
                let s = match slots.pop() {
                    Some(v) => v,
                    None => None,
                };
                proof {
                    assert(s == sl[36]);
                    assert(PackageJson::key_of(36) == "dist"@);
                }
                let dist = match decode_slot::<Dist>(s) {
                    Ok(v) => v,
                    Err(e) => {
                        return Err(e);
                    },
                };
                let s = match slots.pop() {
                    Some(v) => v,
                    None => None,
                };
                proof {
                    assert(s == sl[35]);
                    assert(PackageJson::key_of(35) == "publishConfig"@);
                }
                let publish_config = match decode_slot::<PublishConfig>(s) {
                    Ok(v) => v,
                    Err(e) => {
                        return Err(e);
                    },
                };
                let s = match slots.pop() {
                    Some(v) => v,
                    None => None,
                };
                proof {
                    assert(s == sl[34]);
                    assert(PackageJson::key_of(34) == "private"@);
                }
                let private = match decode_slot::<Private>(s) {
                    Ok(v) => v,
                    Err(e) => {
                        return Err(e);
                    },
                };
                let s = match slots.pop() {
                    Some(v) => v,
                    None => None,
                };
                proof {
                    assert(s == sl[33]);
                    assert(PackageJson::key_of(33) == "cpu"@);
                }
                let cpu = match decode_slot::<Vec<String>>(s) {
                    Ok(v) => v,
                    Err(e) => {
                        return Err(e);
                    },
                };
                let s = match slots.pop() {
                    Some(v) => v,
                    None => None,
                };
                proof {
                    assert(s == sl[32]);
                    assert(PackageJson::key_of(32) == "os"@);
                }
                let os = match decode_slot::<Vec<String>>(s) {
                    Ok(v) => v,
                    Err(e) => {
                        return Err(e);
                    },
                };
                let s = match slots.pop() {
                    Some(v) => v,
                    None => None,
                };
                proof {
                    assert(s == sl[31]);
                    assert(PackageJson::key_of(31) == "engineStrict"@);
                }
                let engine_strict = match decode_slot::<bool>(s) {
                    Ok(v) => v,
                    Err(e) => {
                        return Err(e);
                    },
                };
                let s = match slots.pop() {
                    Some(v) => v,
                    None => None,
                };
                proof {
                    assert(s == sl[30]);
                    assert(PackageJson::key_of(30) == "engines"@);
                }
                let engines = match decode_slot::<OrderedMap<String>>(s) {
                    Ok(v) => v,
                    Err(e) => {
                        return Err(e);
                    },
                };
                let s = match slots.pop() {
                    Some(v) => v,
                    None => None,
                };
                proof {
                    assert(s == sl[29]);
                    assert(PackageJson::key_of(29) == "packageManager"@);
                }
                let package_manager = match decode_slot::<String>(s) {
                    Ok(v) => v,
                    Err(e) => {
                        return Err(e);
                    },
                };
                let s = match slots.pop() {
                    Some(v) => v,
                    None => None,
                };
                proof {
                    assert(s == sl[28]);
                    assert(PackageJson::key_of(28) == "resolutions"@);
                }
                let resolutions = match decode_slot::<OrderedMap<String>>(s) {
                    Ok(v) => v,
                    Err(e) => {
                        return Err(e);
                    },
                };
                let s = match slots.pop() {
                    Some(v) => v,
                    None => None,
                };
                proof {
                    assert(s == sl[27]);
                    assert(PackageJson::key_of(27) == "bundledDependencies"@);
                }
                let bundled_dependencies = match decode_slot::<BundledDependencies>(s) {
                    Ok(v) => v,
                    Err(e) => {
                        return Err(e);
                    },
                };
                let s = match slots.pop() {
                    Some(v) => v,
                    None => None,
                };
                proof {
                    assert(s == sl[26]);
                    assert(PackageJson::key_of(26) == "peerDependencies"@);
                }
                let peer_dependencies = match decode_slot::<OrderedMap<String>>(s) {
                    Ok(v) => v,
                    Err(e) => {
                        return Err(e);
                    },
                };
                let s = match slots.pop() {
                    Some(v) => v,
                    None => None,
                };
                proof {
                    assert(s == sl[25]);
                    assert(PackageJson::key_of(25) == "optionalDependencies"@);
                }
                let optional_dependencies = match decode_slot::<OrderedMap<String>>(s) {
                    Ok(v) => v,
                    Err(e) => {
                        return Err(e);
                    },
                };
                let s = match slots.pop() {
                    Some(v) => v,
                    None => None,
                };
                proof {
                    assert(s == sl[24]);
                    assert(PackageJson::key_of(24) == "devDependencies"@);
                }
                let dev_dependencies = match decode_slot::<OrderedMap<String>>(s) {
                    Ok(v) => v,
                    Err(e) => {
                        return Err(e);
                    },
                };
                let s = match slots.pop() {
                    Some(v) => v,
                    None => None,
                };
                proof {
                    assert(s == sl[23]);
                    assert(PackageJson::key_of(23) == "dependencies"@);
                }
                let dependencies = match decode_slot::<OrderedMap<String>>(s) {
                    Ok(v) => v,
                    Err(e) => {
                        return Err(e);
                    },
                };
                let s = match slots.pop() {
                    Some(v) => v,
                    None => None,
                };
                proof {
                    assert(s == sl[22]);
                    assert(PackageJson::key_of(22) == "config"@);
                }
                let config = match decode_slot::<OrderedMap<JsonValue>>(s) {
                    Ok(v) => v,
                    Err(e) => {
                        return Err(e);
                    },
                };
                let s = match slots.pop() {
                    Some(v) => v,
                    None => None,
                };
                proof {
                    assert(s == sl[21]);
                    assert(PackageJson::key_of(21) == "scripts"@);
                }
                let scripts = match decode_slot::<OrderedMap<Option<String>>>(s) {
                    Ok(v) => v,
                    Err(e) => {
                        return Err(e);
                    },
                };
                let s = match slots.pop() {
                    Some(v) => v,
                    None => None,
                };
                proof {
                    assert(s == sl[20]);
                    assert(PackageJson::key_of(20) == "repository"@);
                }
                let repository = match decode_slot::<String>(s) {
                    Ok(v) => v,
                    Err(e) => {
                        return Err(e);
                    },
                };
                let s = match slots.pop() {
                    Some(v) => v,
                    None => None,
                };
                proof {
                    assert(s == sl[19]);
                    assert(PackageJson::key_of(19) == "directories"@);
                }
                let directories = match decode_slot::<Directories>(s) {
                    Ok(v) => v,
                    Err(e) => {
                        return Err(e);
                    },
                };
                let s = match slots.pop() {
                    Some(v) => v,
                    None => None,
                };
                proof {
                    assert(s == sl[18]);
                    assert(PackageJson::key_of(18) == "man"@);
                }
                let man = match decode_slot::<Man>(s) {
                    Ok(v) => v,
                    Err(e) => {
                        return Err(e);
                    },
                };
                let s = match slots.pop() {
                    Some(v) => v,
                    None => None,
                };
                proof {
                    assert(s == sl[17]);
                    assert(PackageJson::key_of(17) == "typesVersions"@);
                }
                let types_versions = match decode_slot::<OrderedMap<String>>(s) {
                    Ok(v) => v,
                    Err(e) => {
                        return Err(e);
                    },
                };
                let s = match slots.pop() {
                    Some(v) => v,
                    None => None,
                };
                proof {
                    assert(s == sl[16]);
                    assert(PackageJson::key_of(16) == "typings"@);
                }
                let typings = match decode_slot::<String>(s) {
                    Ok(v) => v,
                    Err(e) => {
                        return Err(e);
                    },
                };
                let s = match slots.pop() {
                    Some(v) => v,
                    None => None,
                };
                proof {
                    assert(s == sl[15]);
                    assert(PackageJson::key_of(15) == "types"@);
                }
                let types = match decode_slot::<String>(s) {
                    Ok(v) => v,
                    Err(e) => {
                        return Err(e);
                    },
                };
                let s = match slots.pop() {
                    Some(v) => v,
                    None => None,
                };
                proof {
                    assert(s == sl[14]);
                    assert(PackageJson::key_of(14) == "type"@);
                }
                let type_ = match decode_slot::<Type>(s) {
                    Ok(v) => v,
                    Err(e) => {
                        return Err(e);
                    },
                };
                let s = match slots.pop() {
                    Some(v) => v,
                    None => None,
                };
                proof {
                    assert(s == sl[13]);
                    assert(PackageJson::key_of(13) == "bin"@);
                }
                let bin = match decode_slot::<Binary>(s) {
                    Ok(v) => v,
                    Err(e) => {
                        return Err(e);
                    },
                };
                let s = match slots.pop() {
                    Some(v) => v,
                    None => None,
                };
                proof {
                    assert(s == sl[12]);
                    assert(PackageJson::key_of(12) == "exports"@);
                }
                let exports = match decode_slot::<Exports>(s) {
                    Ok(v) => v,
                    Err(e) => {
                        return Err(e);
                    },
                };
                let s = match slots.pop() {
                    Some(v) => v,
                    None => None,
                };
                proof {
                    assert(s == sl[11]);
                    assert(PackageJson::key_of(11) == "main"@);
                }
                let main = match decode_slot::<String>(s) {
                    Ok(v) => v,
                    Err(e) => {
                        return Err(e);
                    },
                };
                let s = match slots.pop() {
                    Some(v) => v,
                    None => None,
                };
                proof {
                    assert(s == sl[10]);
                    assert(PackageJson::key_of(10) == "files"@);
                }
                let files = match decode_slot::<Vec<String>>(s) {
                    Ok(v) => v,
                    Err(e) => {
                        return Err(e);
                    },
                };
                let s = match slots.pop() {
                    Some(v) => v,
                    None => None,
                };
                proof {
                    assert(s == sl[9]);
                    assert(PackageJson::key_of(9) == "maintainers"@);
                }
                let maintainers = match decode_slot::<Vec<Person>>(s) {
                    Ok(v) => v,
                    Err(e) => {
                        return Err(e);
                    },
                };
                let s = match slots.pop() {
                    Some(v) => v,
                    None => None,
                };
                proof {
                    assert(s == sl[8]);
                    assert(PackageJson::key_of(8) == "contributors"@);
                }
                let contributors = match decode_slot::<Vec<Person>>(s) {
                    Ok(v) => v,
                    Err(e) => {
                        return Err(e);
                    },
                };
                let s = match slots.pop() {
                    Some(v) => v,
                    None => None,
                };
                proof {
                    assert(s == sl[7]);
                    assert(PackageJson::key_of(7) == "author"@);
                }
                let author = match decode_slot::<Person>(s) {
                    Ok(v) => v,
                    Err(e) => {
                        return Err(e);
                    },
                };
                let s = match slots.pop() {
                    Some(v) => v,
                    None => None,
                };
                proof {
                    assert(s == sl[6]);
                    assert(PackageJson::key_of(6) == "license"@);
                }
                let license = match decode_slot::<String>(s) {
                    Ok(v) => v,
                    Err(e) => {
                        return Err(e);
                    },
                };
                let s = match slots.pop() {
                    Some(v) => v,
                    None => None,
                };
                proof {
                    assert(s == sl[5]);
                    assert(PackageJson::key_of(5) == "bugs"@);
                }
                let bugs = match decode_slot::<Bug>(s) {
                    Ok(v) => v,
                    Err(e) => {
                        return Err(e);
                    },
                };
                let s = match slots.pop() {
                    Some(v) => v,
                    None => None,
                };
                proof {
                    assert(s == sl[4]);
                    assert(PackageJson::key_of(4) == "homepage"@);
                }
                let homepage = match decode_slot::<String>(s) {
                    Ok(v) => v,
                    Err(e) => {
                        return Err(e);
                    },
                };
                let s = match slots.pop() {
                    Some(v) => v,
                    None => None,
                };
                proof {
                    assert(s == sl[3]);
                    assert(PackageJson::key_of(3) == "keywords"@);
                }
                let keywords = match decode_slot::<Vec<String>>(s) {
                    Ok(v) => v,
                    Err(e) => {
                        return Err(e);
                    },
                };
                let s = match slots.pop() {
                    Some(v) => v,
                    None => None,
                };
                proof {
                    assert(s == sl[2]);
                    assert(PackageJson::key_of(2) == "description"@);
                }
                let description = match decode_slot::<String>(s) {
                    Ok(v) => v,
                    Err(e) => {
                        return Err(e);
                    },
                };
                let s = match slots.pop() {
                    Some(v) => v,
                    None => None,
                };
                proof {
                    assert(s == sl[1]);
                    assert(PackageJson::key_of(1) == "version"@);
                }
                let version = match decode_slot::<String>(s) {
                    Ok(v) => v,
                    Err(e) => {
                        return Err(e);
                    },
                };
                let s = match slots.pop() {
                    Some(v) => v,
                    None => None,
                };
                proof {
                    assert(s == sl[0]);
                    assert(PackageJson::key_of(0) == "name"@);
                }
                let name = match decode_slot::<String>(s) {
                    Ok(v) => v,
                    Err(e) => {
                        return Err(e);
                    },
                };
                proof {
                    lemma_field::<String>(all, "name"@, name, name);
                    lemma_field::<String>(all, "version"@, version, version);
                    lemma_field::<String>(all, "description"@, description, description);
                    lemma_field::<Vec<String>>(all, "keywords"@, keywords, keywords);
                    lemma_field::<String>(all, "homepage"@, homepage, homepage);
                    lemma_field::<Bug>(all, "bugs"@, bugs, bugs);
                    lemma_field::<String>(all, "license"@, license, license);
                    lemma_field::<Person>(all, "author"@, author, author);
                    lemma_field::<Vec<Person>>(all, "contributors"@, contributors, contributors);
                    lemma_field::<Vec<Person>>(all, "maintainers"@, maintainers, maintainers);
                    lemma_field::<Vec<String>>(all, "files"@, files, files);
                    lemma_field::<String>(all, "main"@, main, main);
                    lemma_field::<Exports>(all, "exports"@, exports, exports);
                    lemma_field::<Binary>(all, "bin"@, bin, bin);
                    lemma_field::<Type>(all, "type"@, type_, type_);
                    lemma_field::<String>(all, "types"@, types, types);
                    lemma_field::<String>(all, "typings"@, typings, typings);
                    lemma_field::<OrderedMap<String>>(all, "typesVersions"@, types_versions, types_versions);
                    lemma_field::<Man>(all, "man"@, man, man);
                    lemma_field::<Directories>(all, "directories"@, directories, directories);
                    lemma_field::<String>(all, "repository"@, repository, repository);
                    lemma_field::<OrderedMap<Option<String>>>(all, "scripts"@, scripts, scripts);
                    lemma_field::<OrderedMap<JsonValue>>(all, "config"@, config, config);
                    lemma_field::<OrderedMap<String>>(all, "dependencies"@, dependencies, dependencies);
                    lemma_field::<OrderedMap<String>>(all, "devDependencies"@, dev_dependencies, dev_dependencies);
                    lemma_field::<OrderedMap<String>>(all, "optionalDependencies"@, optional_dependencies, optional_dependencies);
                    lemma_field::<OrderedMap<String>>(all, "peerDependencies"@, peer_dependencies, peer_dependencies);
                    lemma_field::<BundledDependencies>(all, "bundledDependencies"@, bundled_dependencies, bundled_dependencies);
                    lemma_field::<OrderedMap<String>>(all, "resolutions"@, resolutions, resolutions);
                    lemma_field::<String>(all, "packageManager"@, package_manager, package_manager);
                    lemma_field::<OrderedMap<String>>(all, "engines"@, engines, engines);
                    lemma_field::<bool>(all, "engineStrict"@, engine_strict, engine_strict);
                    lemma_field::<Vec<String>>(all, "os"@, os, os);
                    lemma_field::<Vec<String>>(all, "cpu"@, cpu, cpu);
                    lemma_field::<Private>(all, "private"@, private, private);
                    lemma_field::<PublishConfig>(all, "publishConfig"@, publish_config, publish_config);
                    lemma_field::<Dist>(all, "dist"@, dist, dist);
                    lemma_field::<String>(all, "readme"@, readme, readme);
                    lemma_field::<EsNext>(all, "module"@, module, module);
                    lemma_field::<EsNext>(all, "browser"@, browser, browser);
                    lemma_field::<Workspaces>(all, "workspaces"@, workspaces, workspaces);
                    lemma_entries::<JsonValue>(all.filter(unknown_by(PackageJson::ranks())), other@, other@);
                }
                Ok(PackageJson { name, version, description, keywords, homepage, bugs, license, author, contributors, maintainers, files, main, exports, bin, type_, types, typings, types_versions, man, directories, repository, scripts, config, dependencies, dev_dependencies, optional_dependencies, peer_dependencies, bundled_dependencies, resolutions, package_manager, engines, engine_strict, os, cpu, private, publish_config, dist, readme, module, browser, workspaces, other })
            },
            _ => Err(DecodeError::InvalidShape),
        }
    }

    #[verifier::rlimit(100)]
    fn into_json(self) -> (j: JsonValue) {
        proof {
            PackageJson::lemma_ranks();
        }
        let PackageJson { name, version, description, keywords, homepage, bugs, license, author, contributors, maintainers, files, main, exports, bin, type_, types, typings, types_versions, man, directories, repository, scripts, config, dependencies, dev_dependencies, optional_dependencies, peer_dependencies, bundled_dependencies, resolutions, package_manager, engines, engine_strict, os, cpu, private, publish_config, dist, readme, module, browser, workspaces, other } = self;
        let ghost rk = PackageJson::ranks();
        proof {
            assert(rk("name"@) == 0);
            assert(rk("version"@) == 1);
            assert(rk("description"@) == 2);
            assert(rk("keywords"@) == 3);
            assert(rk("homepage"@) == 4);
            assert(rk("bugs"@) == 5);
            assert(rk("license"@) == 6);
            assert(rk("author"@) == 7);
            assert(rk("contributors"@) == 8);
            assert(rk("maintainers"@) == 9);
            assert(rk("files"@) == 10);
            assert(rk("main"@) == 11);
            assert(rk("exports"@) == 12);
            assert(rk("bin"@) == 13);
            assert(rk("type"@) == 14);
            assert(rk("types"@) == 15);
            assert(rk("typings"@) == 16);
            assert(rk("typesVersions"@) == 17);
            assert(rk("man"@) == 18);
            assert(rk("directories"@) == 19);
            assert(rk("repository"@) == 20);
            assert(rk("scripts"@) == 21);
            assert(rk("config"@) == 22);
            assert(rk("dependencies"@) == 23);
            assert(rk("devDependencies"@) == 24);
            assert(rk("optionalDependencies"@) == 25);
            assert(rk("peerDependencies"@) == 26);
            assert(rk("bundledDependencies"@) == 27);
            assert(rk("resolutions"@) == 28);
            assert(rk("packageManager"@) == 29);
            assert(rk("engines"@) == 30);
            assert(rk("engineStrict"@) == 31);
            assert(rk("os"@) == 32);
            assert(rk("cpu"@) == 33);
            assert(rk("private"@) == 34);
            assert(rk("publishConfig"@) == 35);
            assert(rk("dist"@) == 36);
            assert(rk("readme"@) == 37);
            assert(rk("module"@) == 38);
            assert(rk("browser"@) == 39);
            assert(rk("workspaces"@) == 40);
        }
        let mut out: Vec<(String, JsonValue)> = Vec::new();
        push_field(&mut out, "name", name, Ghost(rk));
        push_field(&mut out, "version", version, Ghost(rk));
        push_field(&mut out, "description", description, Ghost(rk));
        push_field(&mut out, "keywords", keywords, Ghost(rk));
        push_field(&mut out, "homepage", homepage, Ghost(rk));
        push_field(&mut out, "bugs", bugs, Ghost(rk));
        push_field(&mut out, "license", license, Ghost(rk));
        push_field(&mut out, "author", author, Ghost(rk));
        push_field(&mut out, "contributors", contributors, Ghost(rk));
        push_field(&mut out, "maintainers", maintainers, Ghost(rk));
        push_field(&mut out, "files", files, Ghost(rk));
        push_field(&mut out, "main", main, Ghost(rk));
        push_field(&mut out, "exports", exports, Ghost(rk));
        push_field(&mut out, "bin", bin, Ghost(rk));
        push_field(&mut out, "type", type_, Ghost(rk));
        push_field(&mut out, "types", types, Ghost(rk));
        push_field(&mut out, "typings", typings, Ghost(rk));
        push_field(&mut out, "typesVersions", types_versions, Ghost(rk));
        push_field(&mut out, "man", man, Ghost(rk));
        push_field(&mut out, "directories", directories, Ghost(rk));
        push_field(&mut out, "repository", repository, Ghost(rk));
        push_field(&mut out, "scripts", scripts, Ghost(rk));
        push_field(&mut out, "config", config, Ghost(rk));
        push_field(&mut out, "dependencies", dependencies, Ghost(rk));
        push_field(&mut out, "devDependencies", dev_dependencies, Ghost(rk));
        push_field(&mut out, "optionalDependencies", optional_dependencies, Ghost(rk));
        push_field(&mut out, "peerDependencies", peer_dependencies, Ghost(rk));
        push_field(&mut out, "bundledDependencies", bundled_dependencies, Ghost(rk));
        push_field(&mut out, "resolutions", resolutions, Ghost(rk));
        push_field(&mut out, "packageManager", package_manager, Ghost(rk));
        push_field(&mut out, "engines", engines, Ghost(rk));
        push_field(&mut out, "engineStrict", engine_strict, Ghost(rk));
        push_field(&mut out, "os", os, Ghost(rk));
        push_field(&mut out, "cpu", cpu, Ghost(rk));
        push_field(&mut out, "private", private, Ghost(rk));
        push_field(&mut out, "publishConfig", publish_config, Ghost(rk));
        push_field(&mut out, "dist", dist, Ghost(rk));
        push_field(&mut out, "readme", readme, Ghost(rk));
        push_field(&mut out, "module", module, Ghost(rk));
        push_field(&mut out, "browser", browser, Ghost(rk));
        push_field(&mut out, "workspaces", workspaces, Ghost(rk));
        let ghost fixed = out@;
        append_other(&mut out, other, Ghost(rk), Ghost(41int));
        proof {
            assert(out@.take(fixed.len() as int) == fixed);
            assert(ranked(out@.take(fixed.len() as int), rk, 41));
            assert(laid_out(out@, rk, 41));
        }
        JsonValue::Object(out)
    }

    proof fn lemma_shape(j: JsonValue, a: PackageJson, b: PackageJson) {
        let s = j->Object_0@;
        lemma_field::<String>(s, "name"@, a.name, b.name);
        lemma_field::<String>(s, "version"@, a.version, b.version);
        lemma_field::<String>(s, "description"@, a.description, b.description);
        lemma_field::<Vec<String>>(s, "keywords"@, a.keywords, b.keywords);
        lemma_field::<String>(s, "homepage"@, a.homepage, b.homepage);
        lemma_field::<Bug>(s, "bugs"@, a.bugs, b.bugs);
        lemma_field::<String>(s, "license"@, a.license, b.license);
        lemma_field::<Person>(s, "author"@, a.author, b.author);
        lemma_field::<Vec<Person>>(s, "contributors"@, a.contributors, b.contributors);
        lemma_field::<Vec<Person>>(s, "maintainers"@, a.maintainers, b.maintainers);
        lemma_field::<Vec<String>>(s, "files"@, a.files, b.files);
        lemma_field::<String>(s, "main"@, a.main, b.main);
        lemma_field::<Exports>(s, "exports"@, a.exports, b.exports);
        lemma_field::<Binary>(s, "bin"@, a.bin, b.bin);
        lemma_field::<Type>(s, "type"@, a.type_, b.type_);
        lemma_field::<String>(s, "types"@, a.types, b.types);
        lemma_field::<String>(s, "typings"@, a.typings, b.typings);
        lemma_field::<OrderedMap<String>>(s, "typesVersions"@, a.types_versions, b.types_versions);
        lemma_field::<Man>(s, "man"@, a.man, b.man);
        lemma_field::<Directories>(s, "directories"@, a.directories, b.directories);
        lemma_field::<String>(s, "repository"@, a.repository, b.repository);
        lemma_field::<OrderedMap<Option<String>>>(s, "scripts"@, a.scripts, b.scripts);
        lemma_field::<OrderedMap<JsonValue>>(s, "config"@, a.config, b.config);
        lemma_field::<OrderedMap<String>>(s, "dependencies"@, a.dependencies, b.dependencies);
        lemma_field::<OrderedMap<String>>(s, "devDependencies"@, a.dev_dependencies, b.dev_dependencies);
        lemma_field::<OrderedMap<String>>(s, "optionalDependencies"@, a.optional_dependencies, b.optional_dependencies);
        lemma_field::<OrderedMap<String>>(s, "peerDependencies"@, a.peer_dependencies, b.peer_dependencies);
        lemma_field::<BundledDependencies>(s, "bundledDependencies"@, a.bundled_dependencies, b.bundled_dependencies);
        lemma_field::<OrderedMap<String>>(s, "resolutions"@, a.resolutions, b.resolutions);
        lemma_field::<String>(s, "packageManager"@, a.package_manager, b.package_manager);
        lemma_field::<OrderedMap<String>>(s, "engines"@, a.engines, b.engines);
        lemma_field::<bool>(s, "engineStrict"@, a.engine_strict, b.engine_strict);
        lemma_field::<Vec<String>>(s, "os"@, a.os, b.os);
        lemma_field::<Vec<String>>(s, "cpu"@, a.cpu, b.cpu);
        lemma_field::<Private>(s, "private"@, a.private, b.private);
        lemma_field::<PublishConfig>(s, "publishConfig"@, a.publish_config, b.publish_config);
        lemma_field::<Dist>(s, "dist"@, a.dist, b.dist);
        lemma_field::<String>(s, "readme"@, a.readme, b.readme);
        lemma_field::<EsNext>(s, "module"@, a.module, b.module);
        lemma_field::<EsNext>(s, "browser"@, a.browser, b.browser);
        lemma_field::<Workspaces>(s, "workspaces"@, a.workspaces, b.workspaces);
        lemma_entries::<JsonValue>(s.filter(unknown_by(PackageJson::ranks())), a.other@, b.other@);
    }
}

} // verus!

verus! {

impl PackageJson {
    /// A manifest with no fields and no unknown keys.
    pub fn new() -> (r: PackageJson)
        ensures
            r.name is None,
            r.version is None,
            r.description is None,
            r.keywords is None,
            r.homepage is None,
            r.bugs is None,
            r.license is None,
            r.author is None,
            r.contributors is None,
            r.maintainers is None,
            r.files is None,
            r.main is None,
            r.exports is None,
            r.bin is None,
            r.type_ is None,
            r.types is None,
            r.typings is None,
            r.types_versions is None,
            r.man is None,
            r.directories is None,
            r.repository is None,
            r.scripts is None,
            r.config is None,
            r.dependencies is None,
            r.dev_dependencies is None,
            r.optional_dependencies is None,
            r.peer_dependencies is None,
            r.bundled_dependencies is None,
            r.resolutions is None,
            r.package_manager is None,
            r.engines is None,
            r.engine_strict is None,
            r.os is None,
            r.cpu is None,
            r.private is None,
            r.publish_config is None,
            r.dist is None,
            r.readme is None,
            r.module is None,
            r.browser is None,
            r.workspaces is None,
            r.other@.len() == 0,
            PackageJson::wf(r),
    {
        PackageJson {
            name: None,
            version: None,
            description: None,
            keywords: None,
            homepage: None,
            bugs: None,
            license: None,
            author: None,
            contributors: None,
            maintainers: None,
            files: None,
            main: None,
            exports: None,
            bin: None,
            type_: None,
            types: None,
            typings: None,
            types_versions: None,
            man: None,
            directories: None,
            repository: None,
            scripts: None,
            config: None,
            dependencies: None,
            dev_dependencies: None,
            optional_dependencies: None,
            peer_dependencies: None,
            bundled_dependencies: None,
            resolutions: None,
            package_manager: None,
            engines: None,
            engine_strict: None,
            os: None,
            cpu: None,
            private: None,
            publish_config: None,
            dist: None,
            readme: None,
            module: None,
            browser: None,
            workspaces: None,
            other: OrderedMap::new(),
        }
    }

    /// Reads a manifest from a JSON value: the value must be an object, and
    /// each field's value must have one of the field's shapes.
    pub fn decode(j: JsonValue) -> (r: Result<PackageJson, DecodeError>)
        ensures
            !(j is Object) ==> r == Err::<PackageJson, DecodeError>(DecodeError::NotAnObject),
            j is Object ==> (r is Ok <==> PackageJson::decodable(j)),
            r is Ok ==> PackageJson::shape(j, r->Ok_0) && PackageJson::wf(r->Ok_0),
            j is Object && r is Err ==> r->Err_0 == DecodeError::InvalidShape || r->Err_0
                == DecodeError::DuplicateKey,
    {
        if matches!(j, JsonValue::Object(_)) {
            PackageJson::from_json(j)
        } else {
            Err(DecodeError::NotAnObject)
        }
    }

    /// Reads a manifest from JSON text.
    pub fn try_from(text: &str) -> (r: Result<PackageJson, PackageJsonError>)
        ensures
            parsed(text@) is None ==> r is Err && r->Err_0 is ParsePackageJson,
            parsed(text@) is Some ==> {
                let j = parsed(text@)->Some_0;
                &&& r is Ok <==> (j is Object && PackageJson::decodable(j))
                &&& r is Ok ==> PackageJson::shape(j, r->Ok_0) && PackageJson::wf(r->Ok_0)
                &&& !(j is Object) ==> r is Err && r->Err_0 == PackageJsonError::InvalidPackageJson(
                    DecodeError::NotAnObject,
                )
                &&& r is Err ==> r->Err_0 is InvalidPackageJson
            },
    {
        match parse_json(text) {
            Ok(j) => match PackageJson::decode(j) {
                Ok(p) => Ok(p),
                Err(e) => Err(PackageJsonError::InvalidPackageJson(e)),
            },
            Err(e) => Err(PackageJsonError::ParsePackageJson(e)),
        }
    }

    /// The manifest's JSON value: its fields in declaration order, absent
    /// ones left out, then the unknown keys in their order.
    pub fn to_json(self) -> (j: JsonValue)
        requires
            PackageJson::wf(self),
        ensures
            PackageJson::shape(j, self),
            PackageJson::written(j, self),
    {
        self.into_json()
    }

    /// Writes the manifest as compact JSON text.
    pub fn try_to_string(self) -> (r: Result<String, PackageJsonError>)
        requires
            PackageJson::wf(self),
        ensures
            r is Ok,
            r is Ok ==> exists|j: JsonValue| PackageJson::written(j, self) && r->Ok_0@ == printed(j),
    {
        let j = self.into_json();
        match print_json(j) {
            Ok(s) => Ok(s),
            Err(e) => Err(PackageJsonError::SerializePackageJson(e)),
        }
    }
}

} // verus!
