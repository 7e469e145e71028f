use vstd::prelude::*;
use vstd::string::StrSliceExecFns;

use crate::objects::{ExportsObject, PersonObject};
use crate::ordered_map::OrderedMap;
use crate::package_json::PackageJson;
use crate::variants::{Bug, Exports, Person};

verus! {

/// The pattern that package names match.
pub const PACKAGE_NAME_PATTERN: &'static str = "^(?:@[a-z0-9-*~][a-z0-9-*._~]*/)?[a-z0-9-~][a-z0-9-._~]*$";

/// The pattern that package-manager specifiers match.
pub const PACKAGE_MANAGER_PATTERN: &'static str = "(npm|pnpm|yarn)@\\d+\\.\\d+\\.\\d+(-.+)?";

/// `s` is a semver range expression, as the semver crate reads one.
pub uninterp spec fn is_semver_range(s: Seq<char>) -> bool;

/// `s` is a url, as the validator crate judges one.
pub uninterp spec fn is_url(s: Seq<char>) -> bool;

/// `s` is an email address, as the validator crate judges one.
pub uninterp spec fn is_email(s: Seq<char>) -> bool;

/// Whether the regular expression `pattern` matches somewhere in `s`, or
/// `None` where the pattern does not compile.
pub uninterp spec fn regex_finds(pattern: Seq<char>, s: Seq<char>) -> Option<bool>;

/// Relies on `semver::VersionReq::parse`: whether `s` reads as a version
/// requirement.
#[verifier::external_body]
fn semver_range_parses(s: &str) -> (r: bool)
    ensures
        r == is_semver_range(s@),
{
    semver::VersionReq::parse(s).is_ok()
}

/// Relies on `validator::validate_url`: whether `s` parses as a url.
#[verifier::external_body]
fn url_is_valid(s: &str) -> (r: bool)
    ensures
        r == is_url(s@),
{
    validator::validate_url(s)
}

/// Relies on `validator::validate_email`: whether `s` is an email address.
#[verifier::external_body]
fn email_is_valid(s: &str) -> (r: bool)
    ensures
        r == is_email(s@),
{
    validator::validate_email(s)
}

/// Relies on `regex::Regex::new` and `regex::Regex::is_match`: whether
/// `pattern` compiles, and then whether it matches somewhere in `s`.
#[verifier::external_body]
fn regex_search(pattern: &str, s: &str) -> (r: Option<bool>)
    ensures
        r == regex_finds(pattern@, s@),
{
    regex::Regex::new(pattern).ok().map(|re| re.is_match(s))
}

/// The field that a violation concerns.
#[derive(Debug, Clone, Copy, PartialEq, Eq, Structural)]
pub enum Field {
    Name,
    Version,
    Homepage,
    Bugs,
    Author,
    Contributors,
    Maintainers,
    Exports,
    PackageManager,
    PublishConfig,
}

/// The rule that a value breaks.
#[derive(Debug, Clone, Copy, PartialEq, Eq, Structural)]
pub enum Rule {
    /// The length is out of range.
    Length,
    /// The value does not match the field's pattern.
    Pattern,
    /// The value is not a semver range.
    SemverRange,
    /// The value is not a url.
    Url,
    /// The value is not an email address.
    Email,
    /// The value is neither an email address nor a url.
    EmailOrUrl,
    /// The path does not start with "./".
    ExportsPath,
    /// A condition name starts with ".".
    ExportsKey,
}

/// One broken rule, and where: the field, and for a list or a mapping the
/// position of the entry within it.
#[derive(Debug, Clone, Copy, PartialEq, Eq, Structural)]
pub struct Violation {
    pub field: Field,
    pub rule: Rule,
    pub index: Option<usize>,
}

impl Rule {
    /// The text that says what is wrong.
    pub open spec fn message_of(self) -> Seq<char> {
        match self {
            Rule::Length => "length is out of range"@,
            Rule::Pattern => "does not match the expected pattern"@,
            Rule::SemverRange => "version must be a valid semver string"@,
            Rule::Url => "invalid url"@,
            Rule::Email => "invalid email"@,
            Rule::EmailOrUrl => "invalid email or url"@,
            Rule::ExportsPath => "exports path must start with './'"@,
            Rule::ExportsKey => "invalid field name"@,
        }
    }

    /// A sentence that says what is wrong.
    pub fn message(&self) -> (r: &'static str)
        ensures
            r@ == self.message_of(),
    {
        match self {
            Rule::Length => "length is out of range",
            Rule::Pattern => "does not match the expected pattern",
            Rule::SemverRange => "version must be a valid semver string",
            Rule::Url => "invalid url",
            Rule::Email => "invalid email",
            Rule::EmailOrUrl => "invalid email or url",
            Rule::ExportsPath => "exports path must start with './'",
            Rule::ExportsKey => "invalid field name",
        }
    }
}

/// `s` starts with "./".
pub open spec fn is_exports_path(s: Seq<char>) -> bool {
    s.len() >= 2 && s[0] == '.' && s[1] == '/'
}

/// One violation if `broken`, else none.
pub open spec fn when(broken: bool, field: Field, rule: Rule) -> Seq<Violation> {
    when_at(broken, field, rule, None)
}

/// One violation at entry `index` if `broken`, else none.
pub open spec fn when_at(broken: bool, field: Field, rule: Rule, index: Option<usize>) -> Seq<Violation> {
    if broken {
        seq![Violation { field, rule, index }]
    } else {
        Seq::empty()
    }
}

pub open spec fn url_violations(field: Field, u: Option<String>, at: Option<usize>) -> Seq<Violation> {
    match u {
        Some(s) => when_at(!is_url(s@), field, Rule::Url, at),
        None => Seq::empty(),
    }
}

pub open spec fn email_violations(field: Field, e: Option<String>, at: Option<usize>) -> Seq<Violation> {
    match e {
        Some(s) => when_at(!is_email(s@), field, Rule::Email, at),
        None => Seq::empty(),
    }
}

pub open spec fn path_violations(p: Option<String>, at: Option<usize>) -> Seq<Violation> {
    match p {
        Some(s) => when_at(!is_exports_path(s@), Field::Exports, Rule::ExportsPath, at),
        None => Seq::empty(),
    }
}

pub open spec fn person_violations(field: Field, p: Person, at: Option<usize>) -> Seq<Violation> {
    match p {
        Person::String(_) => Seq::empty(),
        Person::Object(o) => when_at(o.name@.len() < 1, field, Rule::Length, at) + url_violations(
            field,
            o.url,
            at,
        ) + email_violations(field, o.email, at),
    }
}

pub open spec fn people_violations(field: Field, s: Seq<Person>) -> Seq<Violation>
    decreases s.len(),
{
    if s.len() == 0 {
        Seq::empty()
    } else {
        people_violations(field, s.drop_last()) + person_violations(
            field,
            s.last(),
            Some((s.len() - 1) as usize),
        )
    }
}

pub open spec fn bug_violations(b: Bug) -> Seq<Violation> {
    match b {
        Bug::EmailOrUrl(s) => when(!(is_email(s@) || is_url(s@)), Field::Bugs, Rule::EmailOrUrl),
        Bug::Object(o) => url_violations(Field::Bugs, o.url, None) + email_violations(
            Field::Bugs,
            o.email,
            None,
        ),
    }
}

/// The violations of a set of conditions' four named paths.
pub open spec fn conditions_violations(o: ExportsObject, at: Option<usize>) -> Seq<Violation> {
    path_violations(o.require, at) + path_violations(o.import, at) + path_violations(o.node, at)
        + path_violations(o.default, at)
}

/// The violations of further conditions: names starting with "." and paths
/// not starting with "./".
pub open spec fn extra_violations(s: Seq<(String, String)>) -> Seq<Violation>
    decreases s.len(),
{
    if s.len() == 0 {
        Seq::empty()
    } else {
        extra_violations(s.drop_last()) + when_at(
            s.last().0@.len() > 0 && s.last().0@[0] == '.',
            Field::Exports,
            Rule::ExportsKey,
            Some((s.len() - 1) as usize),
        ) + when_at(
            !is_exports_path(s.last().1@),
            Field::Exports,
            Rule::ExportsPath,
            Some((s.len() - 1) as usize),
        )
    }
}

/// The violations of conditions by subpath: subpaths not starting with "./",
/// and the conditions' named paths.
pub open spec fn nested_violations(s: Seq<(String, ExportsObject)>) -> Seq<Violation>
    decreases s.len(),
{
    if s.len() == 0 {
        Seq::empty()
    } else {
        nested_violations(s.drop_last()) + when_at(
            !is_exports_path(s.last().0@),
            Field::Exports,
            Rule::ExportsPath,
            Some((s.len() - 1) as usize),
        ) + conditions_violations(s.last().1, Some((s.len() - 1) as usize))
    }
}

pub open spec fn exports_violations(e: Exports) -> Seq<Violation> {
    match e {
        Exports::Path(p) => when(!is_exports_path(p@), Field::Exports, Rule::ExportsPath),
        Exports::Object(o) => extra_violations(o.other@) + conditions_violations(o, None),
        Exports::Nested(m) => nested_violations(m@),
    }
}

pub open spec fn opt_violations<T>(o: Option<T>, f: spec_fn(T) -> Seq<Violation>) -> Seq<Violation> {
    match o {
        Some(x) => f(x),
        None => Seq::empty(),
    }
}

/// Every rule that the manifest breaks, field by field in declaration order.
pub open spec fn violations(p: PackageJson) -> Seq<Violation> {
    opt_violations(
        p.name,
        |n: String|
            when(n@.len() < 1 || n@.len() > 214, Field::Name, Rule::Length) + when(
                regex_finds(PACKAGE_NAME_PATTERN@, n@) != Some(true),
                Field::Name,
                Rule::Pattern,
            ),
    ) + opt_violations(
        p.version,
        |v: String| when(!is_semver_range(v@), Field::Version, Rule::SemverRange),
    ) + url_violations(Field::Homepage, p.homepage, None) + opt_violations(
        p.bugs,
        |b: Bug| bug_violations(b),
    ) + opt_violations(p.author, |a: Person| person_violations(Field::Author, a, None))
        + opt_violations(
        p.contributors,
        |c: Vec<Person>| people_violations(Field::Contributors, c@),
    ) + opt_violations(
        p.maintainers,
        |m: Vec<Person>| people_violations(Field::Maintainers, m@),
    ) + opt_violations(p.exports, |e: Exports| exports_violations(e)) + opt_violations(
        p.package_manager,
        |s: String|
            when(
                regex_finds(PACKAGE_MANAGER_PATTERN@, s@) != Some(true),
                Field::PackageManager,
                Rule::Pattern,
            ),
    ) + opt_violations(
        p.publish_config,
        |c: crate::objects::PublishConfig| url_violations(Field::PublishConfig, c.registry, None),
    )
}

fn push_when(out: &mut Vec<Violation>, broken: bool, field: Field, rule: Rule, index: Option<usize>)
    ensures
        final(out)@ == old(out)@ + when_at(broken, field, rule, index),
{
    if broken {
        out.push(Violation { field, rule, index });
    }
    proof {
        assert(final(out)@ =~= old(out)@ + when_at(broken, field, rule, index));
    }
}

/// Whether `path` starts with "./".
pub fn validate_exports_path(path: &str) -> (r: Result<(), Rule>)
    ensures
        r is Ok <==> is_exports_path(path@),
        r is Err ==> r->Err_0 == Rule::ExportsPath,
{
    if path.unicode_len() >= 2 && path.get_char(0) == '.' && path.get_char(1) == '/' {
        Ok(())
    } else {
        Err(Rule::ExportsPath)
    }
}

/// Whether `version` is a semver range expression.
pub fn validate_version(version: &str) -> (r: Result<(), Rule>)
    ensures
        r is Ok <==> is_semver_range(version@),
        r is Err ==> r->Err_0 == Rule::SemverRange,
{
    if semver_range_parses(version) {
        Ok(())
    } else {
        Err(Rule::SemverRange)
    }
}

/// Whether `email_or_url` is an email address or a url.
pub fn validate_email_or_url(email_or_url: &str) -> (r: Result<(), Rule>)
    ensures
        r is Ok <==> is_email(email_or_url@) || is_url(email_or_url@),
        r is Err ==> r->Err_0 == Rule::EmailOrUrl,
{
    if email_is_valid(email_or_url) || url_is_valid(email_or_url) {
        Ok(())
    } else {
        Err(Rule::EmailOrUrl)
    }
}

fn check_url(out: &mut Vec<Violation>, field: Field, u: &Option<String>, at: Option<usize>)
    ensures
        final(out)@ == old(out)@ + url_violations(field, *u, at),
{
    match u {
        Some(s) => push_when(out, !url_is_valid(s.as_str()), field, Rule::Url, at),
        None => {
            assert(old(out)@ + url_violations(field, *u, at) =~= old(out)@);
        },
    }
}

fn check_email(out: &mut Vec<Violation>, field: Field, e: &Option<String>, at: Option<usize>)
    ensures
        final(out)@ == old(out)@ + email_violations(field, *e, at),
{
    match e {
        Some(s) => push_when(out, !email_is_valid(s.as_str()), field, Rule::Email, at),
        None => {
            assert(old(out)@ + email_violations(field, *e, at) =~= old(out)@);
        },
    }
}

fn check_path(out: &mut Vec<Violation>, p: &Option<String>, at: Option<usize>)
    ensures
        final(out)@ == old(out)@ + path_violations(*p, at),
{
    match p {
        Some(s) => push_when(out, validate_exports_path(s.as_str()).is_err(), Field::Exports, Rule::ExportsPath, at),
        None => {
            assert(old(out)@ + path_violations(*p, at) =~= old(out)@);
        },
    }
}

fn check_person(out: &mut Vec<Violation>, field: Field, p: &Person, at: Option<usize>)
    ensures
        final(out)@ == old(out)@ + person_violations(field, *p, at),
{
    match p {
        Person::String(_) => {
            assert(old(out)@ + person_violations(field, *p, at) =~= old(out)@);
        },
        Person::Object(o) => {
            let ghost start = out@;
            push_when(out, o.name.as_str().unicode_len() < 1, field, Rule::Length, at);
            check_url(out, field, &o.url, at);
            check_email(out, field, &o.email, at);
            assert(out@ =~= start + person_violations(field, *p, at));
        },
    }
}

fn check_people(out: &mut Vec<Violation>, field: Field, s: &Vec<Person>)
    ensures
        final(out)@ == old(out)@ + people_violations(field, s@),
{
    let ghost start = out@;
    let mut i: usize = 0;
    proof {
        assert(s@.take(0).len() == 0);
        assert(out@ =~= start + people_violations(field, s@.take(0)));
    }
    while i < s.len()
        invariant
            i <= s@.len(),
            out@ == start + people_violations(field, s@.take(i as int)),
        decreases s@.len() - i,
    {
        check_person(out, field, &s[i], Some(i));
        proof {
            let t = s@.take(i + 1);
            assert(t.drop_last() == s@.take(i as int));
            assert(t.last() == s@[i as int]);
            assert(out@ =~= start + people_violations(field, t));
        }
        i += 1;
    }
    proof {
        assert(s@.take(s@.len() as int) == s@);
    }
}

fn check_bug(out: &mut Vec<Violation>, b: &Bug)
    ensures
        final(out)@ == old(out)@ + bug_violations(*b),
{
    match b {
        Bug::EmailOrUrl(s) => push_when(
            out,
            validate_email_or_url(s.as_str()).is_err(),
            Field::Bugs,
            Rule::EmailOrUrl,
            None,
        ),
        Bug::Object(o) => {
            let ghost start = out@;
            check_url(out, Field::Bugs, &o.url, None);
            check_email(out, Field::Bugs, &o.email, None);
            assert(out@ =~= start + bug_violations(*b));
        },
    }
}

fn check_conditions(out: &mut Vec<Violation>, o: &ExportsObject, at: Option<usize>)
    ensures
        final(out)@ == old(out)@ + conditions_violations(*o, at),
{
    let ghost start = out@;
    check_path(out, &o.require, at);
    check_path(out, &o.import, at);
    check_path(out, &o.node, at);
    check_path(out, &o.default, at);
    assert(out@ =~= start + conditions_violations(*o, at));
}

fn check_extra(out: &mut Vec<Violation>, m: &OrderedMap<String>)
    ensures
        final(out)@ == old(out)@ + extra_violations(m@),
{
    let s = m.entries();
    let ghost start = out@;
    let mut i: usize = 0;
    proof {
        assert(out@ =~= start + extra_violations(s@.take(0)));
    }
    while i < s.len()
        invariant
            s@ == m@,
            i <= s@.len(),
            out@ == start + extra_violations(s@.take(i as int)),
        decreases s@.len() - i,
    {
        let ghost mid = out@;
        let name = &s[i].0;
        let starts_dot = name.as_str().unicode_len() > 0 && name.as_str().get_char(0) == '.';
        push_when(out, starts_dot, Field::Exports, Rule::ExportsKey, Some(i));
        push_when(out, validate_exports_path(s[i].1.as_str()).is_err(), Field::Exports, Rule::ExportsPath, Some(i));
        proof {
            let t = s@.take(i + 1);
            assert(t.drop_last() == s@.take(i as int));
            assert(t.last() == s@[i as int]);
            assert(out@ =~= start + extra_violations(t));
        }
        i += 1;
    }
    proof {
        assert(s@.take(s@.len() as int) == s@);
    }
}

fn check_nested(out: &mut Vec<Violation>, m: &OrderedMap<ExportsObject>)
    ensures
        final(out)@ == old(out)@ + nested_violations(m@),
{
    let s = m.entries();
    let ghost start = out@;
    let mut i: usize = 0;
    proof {
        assert(out@ =~= start + nested_violations(s@.take(0)));
    }
    while i < s.len()
        invariant
            s@ == m@,
            i <= s@.len(),
            out@ == start + nested_violations(s@.take(i as int)),
        decreases s@.len() - i,
    {
        push_when(out, validate_exports_path(s[i].0.as_str()).is_err(), Field::Exports, Rule::ExportsPath, Some(i));
        check_conditions(out, &s[i].1, Some(i));
        proof {
            let t = s@.take(i + 1);
            assert(t.drop_last() == s@.take(i as int));
            assert(t.last() == s@[i as int]);
            assert(out@ =~= start + nested_violations(t));
        }
        i += 1;
    }
    proof {
        assert(s@.take(s@.len() as int) == s@);
    }
}

fn check_exports(out: &mut Vec<Violation>, e: &Exports)
    ensures
        final(out)@ == old(out)@ + exports_violations(*e),
{
    match e {
        Exports::Path(p) => push_when(
            out,
            validate_exports_path(p.as_str()).is_err(),
            Field::Exports,
            Rule::ExportsPath,
            None,
        ),
        Exports::Object(o) => {
            let ghost start = out@;
            check_extra(out, &o.other);
            check_conditions(out, o, None);
            assert(out@ =~= start + exports_violations(*e));
        },
        Exports::Nested(m) => check_nested(out, m),
    }
}

impl PackageJson {
    /// Checks the fields that have format rules, and reports every rule broken,
    /// field by field; keys that no field names are never checked.
    pub fn validate(&self) -> (r: Result<(), Vec<Violation>>)
        ensures
            r is Ok <==> violations(*self).len() == 0,
            r is Err ==> r->Err_0@ == violations(*self),
    {
        let mut out: Vec<Violation> = Vec::new();
        match &self.name {
            Some(n) => {
                let len = n.as_str().unicode_len();
                push_when(&mut out, len < 1 || len > 214, Field::Name, Rule::Length, None);
                push_when(&mut out, regex_search(PACKAGE_NAME_PATTERN, n.as_str()) != Some(true), Field::Name, Rule::Pattern, None);
            },
            None => {},
        }
        let ghost a = out@;
        match &self.version {
            Some(v) => push_when(&mut out, validate_version(v.as_str()).is_err(), Field::Version, Rule::SemverRange, None),
            None => {},
        }
        let ghost b = out@;
        check_url(&mut out, Field::Homepage, &self.homepage, None);
        let ghost c = out@;
        match &self.bugs {
            Some(x) => check_bug(&mut out, x),
            None => {},
        }
        let ghost d = out@;
        match &self.author {
            Some(x) => check_person(&mut out, Field::Author, x, None),
            None => {},
        }
        let ghost e = out@;
        match &self.contributors {
            Some(x) => check_people(&mut out, Field::Contributors, x),
            None => {},
        }
        let ghost f = out@;
        match &self.maintainers {
            Some(x) => check_people(&mut out, Field::Maintainers, x),
            None => {},
        }
        let ghost g = out@;
        match &self.exports {
            Some(x) => check_exports(&mut out, x),
            None => {},
        }
        let ghost h = out@;
        match &self.package_manager {
            Some(s) => push_when(&mut out, regex_search(PACKAGE_MANAGER_PATTERN, s.as_str()) != Some(true), Field::PackageManager, Rule::Pattern, None),
            None => {},
        }
        let ghost k = out@;
        match &self.publish_config {
            Some(x) => check_url(&mut out, Field::PublishConfig, &x.registry, None),
            None => {},
        }
        assert(out@ =~= violations(*self));
        if out.len() == 0 {
            Ok(())
        } else {
            Err(out)
        }
    }
}

} // verus!
