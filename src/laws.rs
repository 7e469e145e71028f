use vstd::prelude::*;

use crate::fields::{lookup, unknown_by};
use crate::json::JsonValue;
use crate::ordered_map::OrderedMap;
use crate::package_json::PackageJson;
use crate::shape::JsonShape;
use crate::validate::{is_semver_range, violations, Field, Rule, Violation};
use crate::variants::Bug;

verus! {

/// The entries of an object value, or none.
pub open spec fn object_entries(j: JsonValue) -> Seq<(String, JsonValue)> {
    if j is Object {
        j->Object_0@
    } else {
        Seq::empty()
    }
}

/// The entries of a manifest's JSON form whose keys no field names, in order.
pub open spec fn unknown_entries(j: JsonValue) -> Seq<(String, JsonValue)> {
    object_entries(j).filter(unknown_by(PackageJson::ranks()))
}

/// The keys of the object found under `k` in a manifest's JSON form, in
/// order.
pub open spec fn mapping_keys(j: JsonValue, k: Seq<char>) -> Seq<Seq<char>> {
    match lookup(object_entries(j), k) {
        Some(v) => object_entries(v).map_values(|e: (String, JsonValue)| e.0@),
        None => Seq::empty(),
    }
}

/// Writing a manifest and reading the text's value back succeeds and gives a
/// manifest equal to it, field by field.
pub proof fn law_round_trip(k: JsonValue, p: PackageJson, q: PackageJson)
    requires
        PackageJson::shape(k, p),
    ensures
        PackageJson::decodable(k),
        PackageJson::shape(k, q) ==> PackageJson::same(p, q),
{
    PackageJson::lemma_shape(k, p, q);
}

/// Reading a manifest and writing it again keeps every key that no field
/// names, with its value, in the order the keys had.
pub proof fn law_unknown_fields(j: JsonValue, p: PackageJson, k: JsonValue)
    requires
        PackageJson::shape(j, p),
        PackageJson::shape(k, p),
    ensures
        unknown_entries(j) == unknown_entries(k),
{
    let a = unknown_entries(j);
    let b = unknown_entries(k);
    assert forall|i: int| 0 <= i < a.len() implies a[i] == b[i] by {
        assert(a[i].0 == p.other@[i].0 && b[i].0 == p.other@[i].0);
    }
    assert(a =~= b);
}

/// Reading a manifest and writing it again keeps the order of the keys of its
/// dependency mapping.
pub proof fn law_mapping_order(j: JsonValue, p: PackageJson, k: JsonValue)
    requires
        PackageJson::shape(j, p),
        PackageJson::shape(k, p),
    ensures
        mapping_keys(j, "dependencies"@) == mapping_keys(k, "dependencies"@),
{
    let a = mapping_keys(j, "dependencies"@);
    let b = mapping_keys(k, "dependencies"@);
    if let Some(d) = p.dependencies {
        let x = lookup(object_entries(j), "dependencies"@)->Some_0;
        let y = lookup(object_entries(k), "dependencies"@)->Some_0;
        assert(OrderedMap::<String>::shape(x, d) && OrderedMap::<String>::shape(y, d));
        assert forall|i: int| 0 <= i < a.len() implies a[i] == b[i] by {
            assert(x->Object_0@[i].0 == d@[i].0 && y->Object_0@[i].0 == d@[i].0);
        }
    }
    assert(a =~= b);
}

/// A "bugs" value keeps its shape through reading and writing: a bare string
/// is written as a string, an object as an object.
pub proof fn law_bug_shape(j: JsonValue, b: Bug, k: JsonValue)
    requires
        Bug::shape(j, b),
        Bug::shape(k, b),
    ensures
        j is Str <==> k is Str,
        j is Object <==> k is Object,
        j is Str <==> b is EmailOrUrl,
{
}

/// Validation reports every violation: a name that is too long and a version
/// that is not a semver range are both reported.
pub proof fn law_validation_complete(p: PackageJson)
    requires
        p.name is Some && p.name->Some_0@.len() > 214,
        p.version is Some && !is_semver_range(p.version->Some_0@),
    ensures
        violations(p).contains(Violation { field: Field::Name, rule: Rule::Length, index: None }),
        violations(p).contains(Violation { field: Field::Version, rule: Rule::SemverRange, index: None }),
{
    let v = violations(p);
    let n = p.name->Some_0;
    let first = crate::validate::when(n@.len() < 1 || n@.len() > 214, Field::Name, Rule::Length);
    assert(v[0] == first[0]);
    let name_part = crate::validate::opt_violations(
        p.name,
        |n: String|
            crate::validate::when(n@.len() < 1 || n@.len() > 214, Field::Name, Rule::Length)
                + crate::validate::when(
                crate::validate::regex_finds(crate::validate::PACKAGE_NAME_PATTERN@, n@) != Some(true),
                Field::Name,
                Rule::Pattern,
            ),
    );
    let at = name_part.len() as int;
    assert(v[at] == Violation { field: Field::Version, rule: Rule::SemverRange, index: None });
}

} // verus!
