use vstd::prelude::*;

use crate::error::DecodeError;
use crate::fields::{
    append_other, decode_field, entries_ok, entries_shape, field_is, field_ok, field_written, laid_out, required_written, key_is, lemma_entries,
    lemma_field, lemma_filter_has, lemma_known_step, lemma_other_step, lemma_lookup_push, lemma_lookup_unique, lemma_ranked_unique,
    lemma_required, opt_same, ranked, push_field, push_required, required_is, required_ok, required_so_far,
    unknown_by,
};
use crate::json::{keys_unique, JsonValue};
use crate::ordered_map::{unique_keys, OrderedMap};
use crate::shape::JsonShape;
use crate::variants::PublishConfigAccess;

verus! {

/// A person who has been involved in creating or maintaining this package.
#[derive(Debug)]
pub struct PersonObject {
    /// The person's name.
    pub name: String,
    /// A web page of the person.
    pub url: Option<String>,
    /// The person's email address.
    pub email: Option<String>,
}

impl PersonObject {
    /// The place of `k` among the keys of this record's fields, or -1.
    pub open spec fn rank(k: Seq<char>) -> int {
        if k == "name"@ {
            0
        } else if k == "url"@ {
            1
        } else if k == "email"@ {
            2
        } else {
            -1
        }
    }

    /// Each field's key has its place.
    pub proof fn lemma_ranks()
        ensures
            PersonObject::rank("name"@) == 0,
            PersonObject::rank("url"@) == 1,
            PersonObject::rank("email"@) == 2,
    {
        reveal_strlit("name");
        assert("name"@.len() == 4 && "name"@[0] == 'n' && "name"@[1] == 'a' && "name"@[2] == 'm' && "name"@[3] == 'e');
        reveal_strlit("url");
        assert("url"@.len() == 3 && "url"@[0] == 'u' && "url"@[1] == 'r' && "url"@[2] == 'l');
        reveal_strlit("email");
        assert("email"@.len() == 5 && "email"@[0] == 'e' && "email"@[1] == 'm' && "email"@[2] == 'a' && "email"@[3] == 'i' && "email"@[4] == 'l');
    }

    pub open spec fn ranks() -> spec_fn(Seq<char>) -> int {
        |k: Seq<char>| PersonObject::rank(k)
    }

    /// The entries `s` of an object read as `v`.
    pub open spec fn fields_are(s: Seq<(String, JsonValue)>, v: PersonObject) -> bool {
        &&& required_is::<String>(s, "name"@, v.name)
        &&& field_is::<String>(s, "url"@, v.url)
        &&& field_is::<String>(s, "email"@, v.email)
    }

    /// The entries `s` of an object hold each field in its written form.
    pub open spec fn fields_written(s: Seq<(String, JsonValue)>, v: PersonObject) -> bool {
        &&& true
        &&& required_written::<String>(s, "name"@, v.name)
        &&& field_written::<String>(s, "url"@, v.url)
        &&& field_written::<String>(s, "email"@, v.email)
    }

    /// The entries `s` of an object can be read as this record.
    pub open spec fn fields_ok(s: Seq<(String, JsonValue)>) -> bool {
        &&& required_ok::<String>(s, "name"@)
        &&& field_ok::<String>(s, "url"@)
        &&& field_ok::<String>(s, "email"@)
    }
}

impl JsonShape for PersonObject {
    open spec fn shape(j: JsonValue, v: PersonObject) -> bool {
        &&& j is Object
        &&& keys_unique(j->Object_0@)
        &&& PersonObject::fields_are(j->Object_0@, v)
    }

    open spec fn written(j: JsonValue, v: PersonObject) -> bool {
        &&& Self::shape(j, v)
        &&& PersonObject::fields_written(j->Object_0@, v)
        &&& laid_out(j->Object_0@, PersonObject::ranks(), 3)
    }

    open spec fn decodable(j: JsonValue) -> bool {
        &&& j is Object
        &&& keys_unique(j->Object_0@)
        &&& PersonObject::fields_ok(j->Object_0@)
    }

    open spec fn same(a: PersonObject, b: PersonObject) -> bool {
        &&& String::same(a.name, b.name)
        &&& opt_same(a.url, b.url)
        &&& opt_same(a.email, b.email)
    }

    open spec fn wf(v: PersonObject) -> bool {
        &&& true
        &&& String::wf(v.name)
        &&& (v.url is Some ==> String::wf(v.url->Some_0))
        &&& (v.email is Some ==> String::wf(v.email->Some_0))
    }

    open spec fn nullable() -> bool {
        false
    }

    #[verifier::rlimit(40)]
    fn from_json(j: JsonValue) -> (r: Result<PersonObject, DecodeError>) {
        broadcast use lemma_lookup_push;

        let ghost j0 = j;
        let input = j;
        match input {
            JsonValue::Object(entries) => {
                if !unique_keys(&entries) {
                    return Err(DecodeError::DuplicateKey);
                }
                let ghost all = entries@;
                let mut entries = entries;
                let mut name: Option<String> = None;
                let mut url: Option<String> = None;
                let mut email: Option<String> = None;
                let n = entries.len();
                let mut i: usize = 0;
                while i < n
                    invariant
                        j0 == j,
                        j0 is Object && j0->Object_0@ == all,
                        keys_unique(all),
                        n == all.len(),
                        i <= n,
                        entries@ == all.subrange(i as int, n as int),
                        required_so_far::<String>(all.take(i as int), "name"@, name),
                        name is Some ==> String::wf(name->Some_0),
                        field_is::<String>(all.take(i as int), "url"@, url),
                        url is Some ==> String::wf(url->Some_0),
                        field_is::<String>(all.take(i as int), "email"@, email),
                        email is Some ==> String::wf(email->Some_0),
                    decreases n - i,
                {
                    proof {
                        PersonObject::lemma_ranks();
                    }
                    let (key, x) = entries.remove(0);
                    proof {
                        assert(key == all[i as int].0 && x == all[i as int].1);
                        assert(all.take(i + 1) == all.take(i as int).push(all[i as int]));
                        lemma_lookup_push(all.take(i as int), all[i as int], "name"@);
                        lemma_lookup_push(all.take(i as int), all[i as int], "url"@);
                        lemma_lookup_push(all.take(i as int), all[i as int], "email"@);
                        lemma_lookup_unique(all, i as int);
                    }
                    if key_is(&key, "name") {
                        match String::from_json(x) {
                            Ok(v) => {
                                name = Some(v);
                            },
                            Err(e) => {
                                return Err(e);
                            },
                        }
                    } else if key_is(&key, "url") {
                        match decode_field::<String>(x) {
                            Ok(v) => {
                                url = v;
                            },
                            Err(e) => {
                                return Err(e);
                            },
                        }
                    } else if key_is(&key, "email") {
                        match decode_field::<String>(x) {
                            Ok(v) => {
                                email = v;
                            },
                            Err(e) => {
                                return Err(e);
                            },
                        }
                    } else {
                    }
                    i += 1;
                }
                proof {
                    assert(all.take(n as int) == all);
                }
                let name = match name {
                    Some(v) => v,
                    None => {
                        return Err(DecodeError::InvalidShape);
                    },
                };
                proof {
                    lemma_field::<String>(all, "url"@, url, url);
                    lemma_field::<String>(all, "email"@, email, email);
                }
                Ok(PersonObject { name, url, email })
            },
            _ => Err(DecodeError::InvalidShape),
        }
    }

    fn into_json(self) -> (j: JsonValue) {
        proof {
            PersonObject::lemma_ranks();
        }
        let PersonObject { name, url, email } = self;
        let ghost rk = PersonObject::ranks();
        proof {
            assert(rk("name"@) == 0);
            assert(rk("url"@) == 1);
            assert(rk("email"@) == 2);
        }
        let mut out: Vec<(String, JsonValue)> = Vec::new();
        push_required(&mut out, "name", name, Ghost(rk));
        push_field(&mut out, "url", url, Ghost(rk));
        push_field(&mut out, "email", email, Ghost(rk));
        let ghost fixed = out@;
        proof {
            lemma_ranked_unique(out@, rk, 3int);
            assert(out@.take(out@.len() as int) =~= out@);
            assert(ranked(out@.take(out@.len() as int), rk, 3));
            assert(laid_out(out@, rk, 3));
        }
        JsonValue::Object(out)
    }

    proof fn lemma_shape(j: JsonValue, a: PersonObject, b: PersonObject) {
        let s = j->Object_0@;
        lemma_required::<String>(s, "name"@, a.name, b.name);
        lemma_field::<String>(s, "url"@, a.url, b.url);
        lemma_field::<String>(s, "email"@, a.email, b.email);
    }
}

/// Where issues with the package are reported.
#[derive(Debug)]
pub struct BugObject {
    /// The url to the project's issue tracker.
    pub url: Option<String>,
    /// The email address to which issues should be reported.
    pub email: Option<String>,
}

impl BugObject {
    /// The place of `k` among the keys of this record's fields, or -1.
    pub open spec fn rank(k: Seq<char>) -> int {
        if k == "url"@ {
            0
        } else if k == "email"@ {
            1
        } else {
            -1
        }
    }

    /// Each field's key has its place.
    pub proof fn lemma_ranks()
        ensures
            BugObject::rank("url"@) == 0,
            BugObject::rank("email"@) == 1,
    {
        reveal_strlit("url");
        assert("url"@.len() == 3 && "url"@[0] == 'u' && "url"@[1] == 'r' && "url"@[2] == 'l');
        reveal_strlit("email");
        assert("email"@.len() == 5 && "email"@[0] == 'e' && "email"@[1] == 'm' && "email"@[2] == 'a' && "email"@[3] == 'i' && "email"@[4] == 'l');
    }

    pub open spec fn ranks() -> spec_fn(Seq<char>) -> int {
        |k: Seq<char>| BugObject::rank(k)
    }

    /// The entries `s` of an object read as `v`.
    pub open spec fn fields_are(s: Seq<(String, JsonValue)>, v: BugObject) -> bool {
        &&& field_is::<String>(s, "url"@, v.url)
        &&& field_is::<String>(s, "email"@, v.email)
    }

    /// The entries `s` of an object hold each field in its written form.
    pub open spec fn fields_written(s: Seq<(String, JsonValue)>, v: BugObject) -> bool {
        &&& true
        &&& field_written::<String>(s, "url"@, v.url)
        &&& field_written::<String>(s, "email"@, v.email)
    }

    /// The entries `s` of an object can be read as this record.
    pub open spec fn fields_ok(s: Seq<(String, JsonValue)>) -> bool {
        &&& field_ok::<String>(s, "url"@)
        &&& field_ok::<String>(s, "email"@)
    }
}

impl JsonShape for BugObject {
    open spec fn shape(j: JsonValue, v: BugObject) -> bool {
        &&& j is Object
        &&& keys_unique(j->Object_0@)
        &&& BugObject::fields_are(j->Object_0@, v)
    }

    open spec fn written(j: JsonValue, v: BugObject) -> bool {
        &&& Self::shape(j, v)
        &&& BugObject::fields_written(j->Object_0@, v)
        &&& laid_out(j->Object_0@, BugObject::ranks(), 2)
    }

    open spec fn decodable(j: JsonValue) -> bool {
        &&& j is Object
        &&& keys_unique(j->Object_0@)
        &&& BugObject::fields_ok(j->Object_0@)
    }

    open spec fn same(a: BugObject, b: BugObject) -> bool {
        &&& opt_same(a.url, b.url)
        &&& opt_same(a.email, b.email)
    }

    open spec fn wf(v: BugObject) -> bool {
        &&& true
        &&& (v.url is Some ==> String::wf(v.url->Some_0))
        &&& (v.email is Some ==> String::wf(v.email->Some_0))
    }

    open spec fn nullable() -> bool {
        false
    }

    #[verifier::rlimit(40)]
    fn from_json(j: JsonValue) -> (r: Result<BugObject, DecodeError>) {
        broadcast use lemma_lookup_push;

        let ghost j0 = j;
        let input = j;
        match input {
            JsonValue::Object(entries) => {
                if !unique_keys(&entries) {
                    return Err(DecodeError::DuplicateKey);
                }
                let ghost all = entries@;
                let mut entries = entries;
                let mut url: Option<String> = None;
                let mut email: Option<String> = None;
                let n = entries.len();
                let mut i: usize = 0;
                while i < n
                    invariant
                        j0 == j,
                        j0 is Object && j0->Object_0@ == all,
                        keys_unique(all),
                        n == all.len(),
                        i <= n,
                        entries@ == all.subrange(i as int, n as int),
                        field_is::<String>(all.take(i as int), "url"@, url),
                        url is Some ==> String::wf(url->Some_0),
                        field_is::<String>(all.take(i as int), "email"@, email),
                        email is Some ==> String::wf(email->Some_0),
                    decreases n - i,
                {
                    proof {
                        BugObject::lemma_ranks();
                    }
                    let (key, x) = entries.remove(0);
                    proof {
                        assert(key == all[i as int].0 && x == all[i as int].1);
                        assert(all.take(i + 1) == all.take(i as int).push(all[i as int]));
                        lemma_lookup_push(all.take(i as int), all[i as int], "url"@);
                        lemma_lookup_push(all.take(i as int), all[i as int], "email"@);
                        lemma_lookup_unique(all, i as int);
                    }
                    if key_is(&key, "url") {
                        match decode_field::<String>(x) {
                            Ok(v) => {
                                url = v;
                            },
                            Err(e) => {
                                return Err(e);
                            },
                        }
                    } else if key_is(&key, "email") {
                        match decode_field::<String>(x) {
                            Ok(v) => {
                                email = v;
                            },
                            Err(e) => {
                                return Err(e);
                            },
                        }
                    } else {
                    }
                    i += 1;
                }
                proof {
                    assert(all.take(n as int) == all);
                }
                proof {
                    lemma_field::<String>(all, "url"@, url, url);
                    lemma_field::<String>(all, "email"@, email, email);
                }
                Ok(BugObject { url, email })
            },
            _ => Err(DecodeError::InvalidShape),
        }
    }

    fn into_json(self) -> (j: JsonValue) {
        proof {
            BugObject::lemma_ranks();
        }
        let BugObject { url, email } = self;
        let ghost rk = BugObject::ranks();
        proof {
            assert(rk("url"@) == 0);
            assert(rk("email"@) == 1);
        }
        let mut out: Vec<(String, JsonValue)> = Vec::new();
        push_field(&mut out, "url", url, Ghost(rk));
        push_field(&mut out, "email", email, Ghost(rk));
        let ghost fixed = out@;
        proof {
            lemma_ranked_unique(out@, rk, 2int);
            assert(out@.take(out@.len() as int) =~= out@);
            assert(ranked(out@.take(out@.len() as int), rk, 2));
            assert(laid_out(out@, rk, 2));
        }
        JsonValue::Object(out)
    }

    proof fn lemma_shape(j: JsonValue, a: BugObject, b: BugObject) {
        let s = j->Object_0@;
        lemma_field::<String>(s, "url"@, a.url, b.url);
        lemma_field::<String>(s, "email"@, a.email, b.email);
    }
}

/// Details of a published tarball.
#[derive(Debug)]
pub struct Dist {
    /// The tarball's checksum.
    pub shasum: Option<String>,
    /// The tarball's url.
    pub tarball: Option<String>,
}

impl Dist {
    /// The place of `k` among the keys of this record's fields, or -1.
    pub open spec fn rank(k: Seq<char>) -> int {
        if k == "shasum"@ {
            0
        } else if k == "tarball"@ {
            1
        } else {
            -1
        }
    }

    /// Each field's key has its place.
    pub proof fn lemma_ranks()
        ensures
            Dist::rank("shasum"@) == 0,
            Dist::rank("tarball"@) == 1,
    {
        reveal_strlit("shasum");
        assert("shasum"@.len() == 6 && "shasum"@[0] == 's' && "shasum"@[1] == 'h' && "shasum"@[2] == 'a' && "shasum"@[3] == 's' && "shasum"@[4] == 'u' && "shasum"@[5] == 'm');
        reveal_strlit("tarball");
        assert("tarball"@.len() == 7 && "tarball"@[0] == 't' && "tarball"@[1] == 'a' && "tarball"@[2] == 'r' && "tarball"@[3] == 'b' && "tarball"@[4] == 'a' && "tarball"@[5] == 'l' && "tarball"@[6] == 'l');
    }

    pub open spec fn ranks() -> spec_fn(Seq<char>) -> int {
        |k: Seq<char>| Dist::rank(k)
    }

    /// The entries `s` of an object read as `v`.
    pub open spec fn fields_are(s: Seq<(String, JsonValue)>, v: Dist) -> bool {
        &&& field_is::<String>(s, "shasum"@, v.shasum)
        &&& field_is::<String>(s, "tarball"@, v.tarball)
    }

    /// The entries `s` of an object hold each field in its written form.
    pub open spec fn fields_written(s: Seq<(String, JsonValue)>, v: Dist) -> bool {
        &&& true
        &&& field_written::<String>(s, "shasum"@, v.shasum)
        &&& field_written::<String>(s, "tarball"@, v.tarball)
    }

    /// The entries `s` of an object can be read as this record.
    pub open spec fn fields_ok(s: Seq<(String, JsonValue)>) -> bool {
        &&& field_ok::<String>(s, "shasum"@)
        &&& field_ok::<String>(s, "tarball"@)
    }
}

impl JsonShape for Dist {
    open spec fn shape(j: JsonValue, v: Dist) -> bool {
        &&& j is Object
        &&& keys_unique(j->Object_0@)
        &&& Dist::fields_are(j->Object_0@, v)
    }

    open spec fn written(j: JsonValue, v: Dist) -> bool {
        &&& Self::shape(j, v)
        &&& Dist::fields_written(j->Object_0@, v)
        &&& laid_out(j->Object_0@, Dist::ranks(), 2)
    }

    open spec fn decodable(j: JsonValue) -> bool {
        &&& j is Object
        &&& keys_unique(j->Object_0@)
        &&& Dist::fields_ok(j->Object_0@)
    }

    open spec fn same(a: Dist, b: Dist) -> bool {
        &&& opt_same(a.shasum, b.shasum)
        &&& opt_same(a.tarball, b.tarball)
    }

    open spec fn wf(v: Dist) -> bool {
        &&& true
        &&& (v.shasum is Some ==> String::wf(v.shasum->Some_0))
        &&& (v.tarball is Some ==> String::wf(v.tarball->Some_0))
    }

    open spec fn nullable() -> bool {
        false
    }

    #[verifier::rlimit(40)]
    fn from_json(j: JsonValue) -> (r: Result<Dist, DecodeError>) {
        broadcast use lemma_lookup_push;

        let ghost j0 = j;
        let input = j;
        match input {
            JsonValue::Object(entries) => {
                if !unique_keys(&entries) {
                    return Err(DecodeError::DuplicateKey);
                }
                let ghost all = entries@;
                let mut entries = entries;
                let mut shasum: Option<String> = None;
                let mut tarball: Option<String> = None;
                let n = entries.len();
                let mut i: usize = 0;
                while i < n
                    invariant
                        j0 == j,
                        j0 is Object && j0->Object_0@ == all,
                        keys_unique(all),
                        n == all.len(),
                        i <= n,
                        entries@ == all.subrange(i as int, n as int),
                        field_is::<String>(all.take(i as int), "shasum"@, shasum),
                        shasum is Some ==> String::wf(shasum->Some_0),
                        field_is::<String>(all.take(i as int), "tarball"@, tarball),
                        tarball is Some ==> String::wf(tarball->Some_0),
                    decreases n - i,
                {
                    proof {
                        Dist::lemma_ranks();
                    }
                    let (key, x) = entries.remove(0);
                    proof {
                        assert(key == all[i as int].0 && x == all[i as int].1);
                        assert(all.take(i + 1) == all.take(i as int).push(all[i as int]));
                        lemma_lookup_push(all.take(i as int), all[i as int], "shasum"@);
                        lemma_lookup_push(all.take(i as int), all[i as int], "tarball"@);
                        lemma_lookup_unique(all, i as int);
                    }
                    if key_is(&key, "shasum") {
                        match decode_field::<String>(x) {
                            Ok(v) => {
                                shasum = v;
                            },
                            Err(e) => {
                                return Err(e);
                            },
                        }
                    } else if key_is(&key, "tarball") {
                        match decode_field::<String>(x) {
                            Ok(v) => {
                                tarball = v;
                            },
                            Err(e) => {
                                return Err(e);
                            },
                        }
                    } else {
                    }
                    i += 1;
                }
                proof {
                    assert(all.take(n as int) == all);
                }
                proof {
                    lemma_field::<String>(all, "shasum"@, shasum, shasum);
                    lemma_field::<String>(all, "tarball"@, tarball, tarball);
                }
                Ok(Dist { shasum, tarball })
            },
            _ => Err(DecodeError::InvalidShape),
        }
    }

    fn into_json(self) -> (j: JsonValue) {
        proof {
            Dist::lemma_ranks();
        }
        let Dist { shasum, tarball } = self;
        let ghost rk = Dist::ranks();
        proof {
            assert(rk("shasum"@) == 0);
            assert(rk("tarball"@) == 1);
        }
        let mut out: Vec<(String, JsonValue)> = Vec::new();
        push_field(&mut out, "shasum", shasum, Ghost(rk));
        push_field(&mut out, "tarball", tarball, Ghost(rk));
        let ghost fixed = out@;
        proof {
            lemma_ranked_unique(out@, rk, 2int);
            assert(out@.take(out@.len() as int) =~= out@);
            assert(ranked(out@.take(out@.len() as int), rk, 2));
            assert(laid_out(out@, rk, 2));
        }
        JsonValue::Object(out)
    }

    proof fn lemma_shape(j: JsonValue, a: Dist, b: Dist) {
        let s = j->Object_0@;
        lemma_field::<String>(s, "shasum"@, a.shasum, b.shasum);
        lemma_field::<String>(s, "tarball"@, a.tarball, b.tarball);
    }
}

/// Where the parts of the package live.
#[derive(Debug)]
pub struct Directories {
    /// All the files in this folder are used as the 'bin' hash.
    pub bin: Option<String>,
    /// Markdown documentation.
    pub doc: Option<String>,
    /// Example scripts.
    pub example: Option<String>,
    /// Where the bulk of the library is.
    pub lib: Option<String>,
    /// A folder full of man pages.
    pub man: Option<String>,
    /// Folder full of tests.
    pub test: Option<String>,
    /// Keys that no field names, in order.
    pub other: OrderedMap<String>,
}

impl Directories {
    /// The place of `k` among the keys of this record's fields, or -1.
    pub open spec fn rank(k: Seq<char>) -> int {
        if k == "bin"@ {
            0
        } else if k == "doc"@ {
            1
        } else if k == "example"@ {
            2
        } else if k == "lib"@ {
            3
        } else if k == "man"@ {
            4
        } else if k == "test"@ {
            5
        } else {
            -1
        }
    }

    /// Each field's key has its place.
    pub proof fn lemma_ranks()
        ensures
            Directories::rank("bin"@) == 0,
            Directories::rank("doc"@) == 1,
            Directories::rank("example"@) == 2,
            Directories::rank("lib"@) == 3,
            Directories::rank("man"@) == 4,
            Directories::rank("test"@) == 5,
    {
        reveal_strlit("bin");
        assert("bin"@.len() == 3 && "bin"@[0] == 'b' && "bin"@[1] == 'i' && "bin"@[2] == 'n');
        reveal_strlit("doc");
        assert("doc"@.len() == 3 && "doc"@[0] == 'd' && "doc"@[1] == 'o' && "doc"@[2] == 'c');
        reveal_strlit("example");
        assert("example"@.len() == 7 && "example"@[0] == 'e' && "example"@[1] == 'x' && "example"@[2] == 'a' && "example"@[3] == 'm' && "example"@[4] == 'p' && "example"@[5] == 'l' && "example"@[6] == 'e');
        reveal_strlit("lib");
        assert("lib"@.len() == 3 && "lib"@[0] == 'l' && "lib"@[1] == 'i' && "lib"@[2] == 'b');
        reveal_strlit("man");
        assert("man"@.len() == 3 && "man"@[0] == 'm' && "man"@[1] == 'a' && "man"@[2] == 'n');
        reveal_strlit("test");
        assert("test"@.len() == 4 && "test"@[0] == 't' && "test"@[1] == 'e' && "test"@[2] == 's' && "test"@[3] == 't');
    }

    pub open spec fn ranks() -> spec_fn(Seq<char>) -> int {
        |k: Seq<char>| Directories::rank(k)
    }

    /// The entries `s` of an object read as `v`.
    pub open spec fn fields_are(s: Seq<(String, JsonValue)>, v: Directories) -> bool {
        &&& field_is::<String>(s, "bin"@, v.bin)
        &&& field_is::<String>(s, "doc"@, v.doc)
        &&& field_is::<String>(s, "example"@, v.example)
        &&& field_is::<String>(s, "lib"@, v.lib)
        &&& field_is::<String>(s, "man"@, v.man)
        &&& field_is::<String>(s, "test"@, v.test)
        &&& entries_shape::<String>(s.filter(unknown_by(Directories::ranks())), v.other@)
    }

    /// The entries `s` of an object hold each field in its written form.
    pub open spec fn fields_written(s: Seq<(String, JsonValue)>, v: Directories) -> bool {
        &&& true
        &&& field_written::<String>(s, "bin"@, v.bin)
        &&& field_written::<String>(s, "doc"@, v.doc)
        &&& field_written::<String>(s, "example"@, v.example)
        &&& field_written::<String>(s, "lib"@, v.lib)
        &&& field_written::<String>(s, "man"@, v.man)
        &&& field_written::<String>(s, "test"@, v.test)
    }

    /// The entries `s` of an object can be read as this record.
    pub open spec fn fields_ok(s: Seq<(String, JsonValue)>) -> bool {
        &&& field_ok::<String>(s, "bin"@)
        &&& field_ok::<String>(s, "doc"@)
        &&& field_ok::<String>(s, "example"@)
        &&& field_ok::<String>(s, "lib"@)
        &&& field_ok::<String>(s, "man"@)
        &&& field_ok::<String>(s, "test"@)
        &&& entries_ok::<String>(s.filter(unknown_by(Directories::ranks())))
    }
}

impl JsonShape for Directories {
    open spec fn shape(j: JsonValue, v: Directories) -> bool {
        &&& j is Object
        &&& keys_unique(j->Object_0@)
        &&& Directories::fields_are(j->Object_0@, v)
    }

    open spec fn written(j: JsonValue, v: Directories) -> bool {
        &&& Self::shape(j, v)
        &&& Directories::fields_written(j->Object_0@, v)
        &&& laid_out(j->Object_0@, Directories::ranks(), 6)
    }

    open spec fn decodable(j: JsonValue) -> bool {
        &&& j is Object
        &&& keys_unique(j->Object_0@)
        &&& Directories::fields_ok(j->Object_0@)
    }

    open spec fn same(a: Directories, b: Directories) -> bool {
        &&& opt_same(a.bin, b.bin)
        &&& opt_same(a.doc, b.doc)
        &&& opt_same(a.example, b.example)
        &&& opt_same(a.lib, b.lib)
        &&& opt_same(a.man, b.man)
        &&& opt_same(a.test, b.test)
        &&& OrderedMap::<String>::same(a.other, b.other)
    }

    open spec fn wf(v: Directories) -> bool {
        &&& true
        &&& (v.bin is Some ==> String::wf(v.bin->Some_0))
        &&& (v.doc is Some ==> String::wf(v.doc->Some_0))
        &&& (v.example is Some ==> String::wf(v.example->Some_0))
        &&& (v.lib is Some ==> String::wf(v.lib->Some_0))
        &&& (v.man is Some ==> String::wf(v.man->Some_0))
        &&& (v.test is Some ==> String::wf(v.test->Some_0))
        &&& OrderedMap::<String>::wf(v.other)
        &&& forall|i: int| 0 <= i < v.other@.len() ==> Directories::rank((#[trigger] v.other@[i]).0@) < 0
    }

    open spec fn nullable() -> bool {
        false
    }

    #[verifier::rlimit(40)]
    fn from_json(j: JsonValue) -> (r: Result<Directories, DecodeError>) {
        broadcast use lemma_lookup_push;

        let ghost j0 = j;
        let input = j;
        match input {
            JsonValue::Object(entries) => {
                if !unique_keys(&entries) {
                    return Err(DecodeError::DuplicateKey);
                }
                let ghost all = entries@;
                let mut entries = entries;
                let mut bin: Option<String> = None;
                let mut doc: Option<String> = None;
                let mut example: Option<String> = None;
                let mut lib: Option<String> = None;
                let mut man: Option<String> = None;
                let mut test: Option<String> = None;
                let mut other: OrderedMap<String> = OrderedMap::new();
                let n = entries.len();
                let mut i: usize = 0;
                while i < n
                    invariant
                        j0 == j,
                        j0 is Object && j0->Object_0@ == all,
                        keys_unique(all),
                        n == all.len(),
                        i <= n,
                        entries@ == all.subrange(i as int, n as int),
                        field_is::<String>(all.take(i as int), "bin"@, bin),
                        bin is Some ==> String::wf(bin->Some_0),
                        field_is::<String>(all.take(i as int), "doc"@, doc),
                        doc is Some ==> String::wf(doc->Some_0),
                        field_is::<String>(all.take(i as int), "example"@, example),
                        example is Some ==> String::wf(example->Some_0),
                        field_is::<String>(all.take(i as int), "lib"@, lib),
                        lib is Some ==> String::wf(lib->Some_0),
                        field_is::<String>(all.take(i as int), "man"@, man),
                        man is Some ==> String::wf(man->Some_0),
                        field_is::<String>(all.take(i as int), "test"@, test),
                        test is Some ==> String::wf(test->Some_0),
                        entries_shape::<String>(all.take(i as int).filter(unknown_by(Directories::ranks())), other@),
                        forall|m: int, k: int| 0 <= m < other@.len() && i <= k < n ==> (#[trigger] other@[m]).0@ != (#[trigger] all[k]).0@,
                        forall|m: int| 0 <= m < other@.len() ==> String::wf((#[trigger] other@[m]).1) && Directories::rank(other@[m].0@) < 0,
                    decreases n - i,
                {
                    proof {
                        Directories::lemma_ranks();
                    }
                    let (key, x) = entries.remove(0);
                    proof {
                        assert(key == all[i as int].0 && x == all[i as int].1);
                        assert(all.take(i + 1) == all.take(i as int).push(all[i as int]));
                        lemma_lookup_push(all.take(i as int), all[i as int], "bin"@);
                        lemma_lookup_push(all.take(i as int), all[i as int], "doc"@);
                        lemma_lookup_push(all.take(i as int), all[i as int], "example"@);
                        lemma_lookup_push(all.take(i as int), all[i as int], "lib"@);
                        lemma_lookup_push(all.take(i as int), all[i as int], "man"@);
                        lemma_lookup_push(all.take(i as int), all[i as int], "test"@);
                        lemma_lookup_unique(all, i as int);
                    }
                    if key_is(&key, "bin") {
                        proof {
                            assert(!(unknown_by(Directories::ranks()))(all[i as int]));
                            lemma_known_step(all.take(i as int), all[i as int], other@, unknown_by(Directories::ranks()));
                        }
                        match decode_field::<String>(x) {
                            Ok(v) => {
                                bin = v;
                            },
                            Err(e) => {
                                return Err(e);
                            },
                        }
                    } else if key_is(&key, "doc") {
                        proof {
                            assert(!(unknown_by(Directories::ranks()))(all[i as int]));
                            lemma_known_step(all.take(i as int), all[i as int], other@, unknown_by(Directories::ranks()));
                        }
                        match decode_field::<String>(x) {
                            Ok(v) => {
                                doc = v;
                            },
                            Err(e) => {
                                return Err(e);
                            },
                        }
                    } else if key_is(&key, "example") {
                        proof {
                            assert(!(unknown_by(Directories::ranks()))(all[i as int]));
                            lemma_known_step(all.take(i as int), all[i as int], other@, unknown_by(Directories::ranks()));
                        }
                        match decode_field::<String>(x) {
                            Ok(v) => {
                                example = v;
                            },
                            Err(e) => {
                                return Err(e);
                            },
                        }
                    } else if key_is(&key, "lib") {
                        proof {
                            assert(!(unknown_by(Directories::ranks()))(all[i as int]));
                            lemma_known_step(all.take(i as int), all[i as int], other@, unknown_by(Directories::ranks()));
                        }
                        match decode_field::<String>(x) {
                            Ok(v) => {
                                lib = v;
                            },
                            Err(e) => {
                                return Err(e);
                            },
                        }
                    } else if key_is(&key, "man") {
                        proof {
                            assert(!(unknown_by(Directories::ranks()))(all[i as int]));
                            lemma_known_step(all.take(i as int), all[i as int], other@, unknown_by(Directories::ranks()));
                        }
                        match decode_field::<String>(x) {
                            Ok(v) => {
                                man = v;
                            },
                            Err(e) => {
                                return Err(e);
                            },
                        }
                    } else if key_is(&key, "test") {
                        proof {
                            assert(!(unknown_by(Directories::ranks()))(all[i as int]));
                            lemma_known_step(all.take(i as int), all[i as int], other@, unknown_by(Directories::ranks()));
                        }
                        match decode_field::<String>(x) {
                            Ok(v) => {
                                test = v;
                            },
                            Err(e) => {
                                return Err(e);
                            },
                        }
                    } else {
                        proof {
                            assert(Directories::rank(key@) < 0);
                            assert(forall|m: int| 0 <= m < other@.len() ==> (#[trigger] other@[m]).0@ != all[i as int].0@);
                        }
                        let ghost before = other@;
                        match String::from_json(x) {
                            Ok(v) => {
                                let ghost vv = v;
                                other.insert(key, v);
                                proof {
                                    assert(other@ == before.push((all[i as int].0, vv)));
                                    assert((unknown_by(Directories::ranks()))(all[i as int]));
                                    lemma_other_step(all.take(i as int), all[i as int], before, vv, unknown_by(Directories::ranks()));
                                    assert forall|m: int| 0 <= m < other@.len() implies String::wf((#[trigger] other@[m]).1) && Directories::rank(other@[m].0@) < 0 by {
                                        if m < before.len() {
                                            assert(other@[m] == before[m]);
                                        } else {
                                            assert(other@[m] == (all[i as int].0, vv));
                                            assert(Directories::rank(key@) < 0);
                                        }
                                    }
                                    assert forall|m: int, k: int| 0 <= m < other@.len() && i + 1 <= k < n implies (#[trigger] other@[m]).0@ != (#[trigger] all[k]).0@ by {
                                        if m < before.len() {
                                            assert(other@[m] == before[m]);
                                        } else {
                                            assert(all[i as int].0@ != all[k].0@);
                                        }
                                    }
                                }
                            },
                            Err(e) => {
                                proof {
                                    lemma_filter_has(all, unknown_by(Directories::ranks()), i as int);
                                }
                                return Err(e);
                            },
                        }
                    }
                    i += 1;
                }
                proof {
                    assert(all.take(n as int) == all);
                }
                proof {
                    lemma_field::<String>(all, "bin"@, bin, bin);
                    lemma_field::<String>(all, "doc"@, doc, doc);
                    lemma_field::<String>(all, "example"@, example, example);
                    lemma_field::<String>(all, "lib"@, lib, lib);
                    lemma_field::<String>(all, "man"@, man, man);
                    lemma_field::<String>(all, "test"@, test, test);
                    lemma_entries::<String>(all.filter(unknown_by(Directories::ranks())), other@, other@);
                }
                Ok(Directories { bin, doc, example, lib, man, test, other })
            },
            _ => Err(DecodeError::InvalidShape),
        }
    }

    fn into_json(self) -> (j: JsonValue) {
        proof {
            Directories::lemma_ranks();
        }
        let Directories { bin, doc, example, lib, man, test, other } = self;
        let ghost rk = Directories::ranks();
        proof {
            assert(rk("bin"@) == 0);
            assert(rk("doc"@) == 1);
            assert(rk("example"@) == 2);
            assert(rk("lib"@) == 3);
            assert(rk("man"@) == 4);
            assert(rk("test"@) == 5);
        }
        let mut out: Vec<(String, JsonValue)> = Vec::new();
        push_field(&mut out, "bin", bin, Ghost(rk));
        push_field(&mut out, "doc", doc, Ghost(rk));
        push_field(&mut out, "example", example, Ghost(rk));
        push_field(&mut out, "lib", lib, Ghost(rk));
        push_field(&mut out, "man", man, Ghost(rk));
        push_field(&mut out, "test", test, Ghost(rk));
        let ghost fixed = out@;
        append_other(&mut out, other, Ghost(rk), Ghost(6int));
        proof {
            assert(out@.take(fixed.len() as int) == fixed);
            assert(ranked(out@.take(fixed.len() as int), rk, 6));
            assert(laid_out(out@, rk, 6));
        }
        JsonValue::Object(out)
    }

    proof fn lemma_shape(j: JsonValue, a: Directories, b: Directories) {
        let s = j->Object_0@;
        lemma_field::<String>(s, "bin"@, a.bin, b.bin);
        lemma_field::<String>(s, "doc"@, a.doc, b.doc);
        lemma_field::<String>(s, "example"@, a.example, b.example);
        lemma_field::<String>(s, "lib"@, a.lib, b.lib);
        lemma_field::<String>(s, "man"@, a.man, b.man);
        lemma_field::<String>(s, "test"@, a.test, b.test);
        lemma_entries::<String>(s.filter(unknown_by(Directories::ranks())), a.other@, b.other@);
    }
}

/// The structured form of a repository.
#[derive(Debug)]
pub struct RepositoryObject {
    /// The version control system.
    pub type_: Option<String>,
    /// Where the repository is.
    pub url: Option<String>,
    /// The package's directory within the repository.
    pub directory: Option<String>,
}

impl RepositoryObject {
    /// The place of `k` among the keys of this record's fields, or -1.
    pub open spec fn rank(k: Seq<char>) -> int {
        if k == "type"@ {
            0
        } else if k == "url"@ {
            1
        } else if k == "directory"@ {
            2
        } else {
            -1
        }
    }

    /// Each field's key has its place.
    pub proof fn lemma_ranks()
        ensures
            RepositoryObject::rank("type"@) == 0,
            RepositoryObject::rank("url"@) == 1,
            RepositoryObject::rank("directory"@) == 2,
    {
        reveal_strlit("type");
        assert("type"@.len() == 4 && "type"@[0] == 't' && "type"@[1] == 'y' && "type"@[2] == 'p' && "type"@[3] == 'e');
        reveal_strlit("url");
        assert("url"@.len() == 3 && "url"@[0] == 'u' && "url"@[1] == 'r' && "url"@[2] == 'l');
        reveal_strlit("directory");
        assert("directory"@.len() == 9 && "directory"@[0] == 'd' && "directory"@[1] == 'i' && "directory"@[2] == 'r' && "directory"@[3] == 'e' && "directory"@[4] == 'c' && "directory"@[5] == 't' && "directory"@[6] == 'o' && "directory"@[7] == 'r' && "directory"@[8] == 'y');
    }

    pub open spec fn ranks() -> spec_fn(Seq<char>) -> int {
        |k: Seq<char>| RepositoryObject::rank(k)
    }

    /// The entries `s` of an object read as `v`.
    pub open spec fn fields_are(s: Seq<(String, JsonValue)>, v: RepositoryObject) -> bool {
        &&& field_is::<String>(s, "type"@, v.type_)
        &&& field_is::<String>(s, "url"@, v.url)
        &&& field_is::<String>(s, "directory"@, v.directory)
    }

    /// The entries `s` of an object hold each field in its written form.
    pub open spec fn fields_written(s: Seq<(String, JsonValue)>, v: RepositoryObject) -> bool {
        &&& true
        &&& field_written::<String>(s, "type"@, v.type_)
        &&& field_written::<String>(s, "url"@, v.url)
        &&& field_written::<String>(s, "directory"@, v.directory)
    }

    /// The entries `s` of an object can be read as this record.
    pub open spec fn fields_ok(s: Seq<(String, JsonValue)>) -> bool {
        &&& field_ok::<String>(s, "type"@)
        &&& field_ok::<String>(s, "url"@)
        &&& field_ok::<String>(s, "directory"@)
    }
}

impl JsonShape for RepositoryObject {
    open spec fn shape(j: JsonValue, v: RepositoryObject) -> bool {
        &&& j is Object
        &&& keys_unique(j->Object_0@)
        &&& RepositoryObject::fields_are(j->Object_0@, v)
    }

    open spec fn written(j: JsonValue, v: RepositoryObject) -> bool {
        &&& Self::shape(j, v)
        &&& RepositoryObject::fields_written(j->Object_0@, v)
        &&& laid_out(j->Object_0@, RepositoryObject::ranks(), 3)
    }

    open spec fn decodable(j: JsonValue) -> bool {
        &&& j is Object
        &&& keys_unique(j->Object_0@)
        &&& RepositoryObject::fields_ok(j->Object_0@)
    }

    open spec fn same(a: RepositoryObject, b: RepositoryObject) -> bool {
        &&& opt_same(a.type_, b.type_)
        &&& opt_same(a.url, b.url)
        &&& opt_same(a.directory, b.directory)
    }

    open spec fn wf(v: RepositoryObject) -> bool {
        &&& true
        &&& (v.type_ is Some ==> String::wf(v.type_->Some_0))
        &&& (v.url is Some ==> String::wf(v.url->Some_0))
        &&& (v.directory is Some ==> String::wf(v.directory->Some_0))
    }

    open spec fn nullable() -> bool {
        false
    }

    #[verifier::rlimit(40)]
    fn from_json(j: JsonValue) -> (r: Result<RepositoryObject, DecodeError>) {
        broadcast use lemma_lookup_push;

        let ghost j0 = j;
        let input = j;
        match input {
            JsonValue::Object(entries) => {
                if !unique_keys(&entries) {
                    return Err(DecodeError::DuplicateKey);
                }
                let ghost all = entries@;
                let mut entries = entries;
                let mut type_: Option<String> = None;
                let mut url: Option<String> = None;
                let mut directory: Option<String> = None;
                let n = entries.len();
                let mut i: usize = 0;
                while i < n
                    invariant
                        j0 == j,
                        j0 is Object && j0->Object_0@ == all,
                        keys_unique(all),
                        n == all.len(),
                        i <= n,
                        entries@ == all.subrange(i as int, n as int),
                        field_is::<String>(all.take(i as int), "type"@, type_),
                        type_ is Some ==> String::wf(type_->Some_0),
                        field_is::<String>(all.take(i as int), "url"@, url),
                        url is Some ==> String::wf(url->Some_0),
                        field_is::<String>(all.take(i as int), "directory"@, directory),
                        directory is Some ==> String::wf(directory->Some_0),
                    decreases n - i,
                {
                    proof {
                        RepositoryObject::lemma_ranks();
                    }
                    let (key, x) = entries.remove(0);
                    proof {
                        assert(key == all[i as int].0 && x == all[i as int].1);
                        assert(all.take(i + 1) == all.take(i as int).push(all[i as int]));
                        lemma_lookup_push(all.take(i as int), all[i as int], "type"@);
                        lemma_lookup_push(all.take(i as int), all[i as int], "url"@);
                        lemma_lookup_push(all.take(i as int), all[i as int], "directory"@);
                        lemma_lookup_unique(all, i as int);
                    }
                    if key_is(&key, "type") {
                        match decode_field::<String>(x) {
                            Ok(v) => {
                                type_ = v;
                            },
                            Err(e) => {
                                return Err(e);
                            },
                        }
                    } else if key_is(&key, "url") {
                        match decode_field::<String>(x) {
                            Ok(v) => {
                                url = v;
                            },
                            Err(e) => {
                                return Err(e);
                            },
                        }
                    } else if key_is(&key, "directory") {
                        match decode_field::<String>(x) {
                            Ok(v) => {
                                directory = v;
                            },
                            Err(e) => {
                                return Err(e);
                            },
                        }
                    } else {
                    }
                    i += 1;
                }
                proof {
                    assert(all.take(n as int) == all);
                }
                proof {
                    lemma_field::<String>(all, "type"@, type_, type_);
                    lemma_field::<String>(all, "url"@, url, url);
                    lemma_field::<String>(all, "directory"@, directory, directory);
                }
                Ok(RepositoryObject { type_, url, directory })
            },
            _ => Err(DecodeError::InvalidShape),
        }
    }

    fn into_json(self) -> (j: JsonValue) {
        proof {
            RepositoryObject::lemma_ranks();
        }
        let RepositoryObject { type_, url, directory } = self;
        let ghost rk = RepositoryObject::ranks();
        proof {
            assert(rk("type"@) == 0);
            assert(rk("url"@) == 1);
            assert(rk("directory"@) == 2);
        }
        let mut out: Vec<(String, JsonValue)> = Vec::new();
        push_field(&mut out, "type", type_, Ghost(rk));
        push_field(&mut out, "url", url, Ghost(rk));
        push_field(&mut out, "directory", directory, Ghost(rk));
        let ghost fixed = out@;
        proof {
            lemma_ranked_unique(out@, rk, 3int);
            assert(out@.take(out@.len() as int) =~= out@);
            assert(ranked(out@.take(out@.len() as int), rk, 3));
            assert(laid_out(out@, rk, 3));
        }
        JsonValue::Object(out)
    }

    proof fn lemma_shape(j: JsonValue, a: RepositoryObject, b: RepositoryObject) {
        let s = j->Object_0@;
        lemma_field::<String>(s, "type"@, a.type_, b.type_);
        lemma_field::<String>(s, "url"@, a.url, b.url);
        lemma_field::<String>(s, "directory"@, a.directory, b.directory);
    }
}

/// The structured form of workspaces.
#[derive(Debug)]
pub struct WorkspacesObject {
    /// Workspace package paths; glob patterns are supported.
    pub packages: Option<Vec<String>>,
    /// Packages to keep from being hoisted to the workspace root.
    pub nohoist: Option<Vec<String>>,
}

impl WorkspacesObject {
    /// The place of `k` among the keys of this record's fields, or -1.
    pub open spec fn rank(k: Seq<char>) -> int {
        if k == "packages"@ {
            0
        } else if k == "nohoist"@ {
            1
        } else {
            -1
        }
    }

    /// Each field's key has its place.
    pub proof fn lemma_ranks()
        ensures
            WorkspacesObject::rank("packages"@) == 0,
            WorkspacesObject::rank("nohoist"@) == 1,
    {
        reveal_strlit("packages");
        assert("packages"@.len() == 8 && "packages"@[0] == 'p' && "packages"@[1] == 'a' && "packages"@[2] == 'c' && "packages"@[3] == 'k' && "packages"@[4] == 'a' && "packages"@[5] == 'g' && "packages"@[6] == 'e' && "packages"@[7] == 's');
        reveal_strlit("nohoist");
        assert("nohoist"@.len() == 7 && "nohoist"@[0] == 'n' && "nohoist"@[1] == 'o' && "nohoist"@[2] == 'h' && "nohoist"@[3] == 'o' && "nohoist"@[4] == 'i' && "nohoist"@[5] == 's' && "nohoist"@[6] == 't');
    }

    pub open spec fn ranks() -> spec_fn(Seq<char>) -> int {
        |k: Seq<char>| WorkspacesObject::rank(k)
    }

    /// The entries `s` of an object read as `v`.
    pub open spec fn fields_are(s: Seq<(String, JsonValue)>, v: WorkspacesObject) -> bool {
        &&& field_is::<Vec<String>>(s, "packages"@, v.packages)
        &&& field_is::<Vec<String>>(s, "nohoist"@, v.nohoist)
    }

    /// The entries `s` of an object hold each field in its written form.
    pub open spec fn fields_written(s: Seq<(String, JsonValue)>, v: WorkspacesObject) -> bool {
        &&& true
        &&& field_written::<Vec<String>>(s, "packages"@, v.packages)
        &&& field_written::<Vec<String>>(s, "nohoist"@, v.nohoist)
    }

    /// The entries `s` of an object can be read as this record.
    pub open spec fn fields_ok(s: Seq<(String, JsonValue)>) -> bool {
        &&& field_ok::<Vec<String>>(s, "packages"@)
        &&& field_ok::<Vec<String>>(s, "nohoist"@)
    }
}

impl JsonShape for WorkspacesObject {
    open spec fn shape(j: JsonValue, v: WorkspacesObject) -> bool {
        &&& j is Object
        &&& keys_unique(j->Object_0@)
        &&& WorkspacesObject::fields_are(j->Object_0@, v)
    }

    open spec fn written(j: JsonValue, v: WorkspacesObject) -> bool {
        &&& Self::shape(j, v)
        &&& WorkspacesObject::fields_written(j->Object_0@, v)
        &&& laid_out(j->Object_0@, WorkspacesObject::ranks(), 2)
    }

    open spec fn decodable(j: JsonValue) -> bool {
        &&& j is Object
        &&& keys_unique(j->Object_0@)
        &&& WorkspacesObject::fields_ok(j->Object_0@)
    }

    open spec fn same(a: WorkspacesObject, b: WorkspacesObject) -> bool {
        &&& opt_same(a.packages, b.packages)
        &&& opt_same(a.nohoist, b.nohoist)
    }

    open spec fn wf(v: WorkspacesObject) -> bool {
        &&& true
        &&& (v.packages is Some ==> <Vec<String>>::wf(v.packages->Some_0))
        &&& (v.nohoist is Some ==> <Vec<String>>::wf(v.nohoist->Some_0))
    }

    open spec fn nullable() -> bool {
        false
    }

    #[verifier::rlimit(40)]
    fn from_json(j: JsonValue) -> (r: Result<WorkspacesObject, DecodeError>) {
        broadcast use lemma_lookup_push;

        let ghost j0 = j;
        let input = j;
        match input {
            JsonValue::Object(entries) => {
                if !unique_keys(&entries) {
                    return Err(DecodeError::DuplicateKey);
                }
                let ghost all = entries@;
                let mut entries = entries;
                let mut packages: Option<Vec<String>> = None;
                let mut nohoist: Option<Vec<String>> = None;
                let n = entries.len();
                let mut i: usize = 0;
                while i < n
                    invariant
                        j0 == j,
                        j0 is Object && j0->Object_0@ == all,
                        keys_unique(all),
                        n == all.len(),
                        i <= n,
                        entries@ == all.subrange(i as int, n as int),
                        field_is::<Vec<String>>(all.take(i as int), "packages"@, packages),
                        packages is Some ==> <Vec<String>>::wf(packages->Some_0),
                        field_is::<Vec<String>>(all.take(i as int), "nohoist"@, nohoist),
                        nohoist is Some ==> <Vec<String>>::wf(nohoist->Some_0),
                    decreases n - i,
                {
                    proof {
                        WorkspacesObject::lemma_ranks();
                    }
                    let (key, x) = entries.remove(0);
                    proof {
                        assert(key == all[i as int].0 && x == all[i as int].1);
                        assert(all.take(i + 1) == all.take(i as int).push(all[i as int]));
                        lemma_lookup_push(all.take(i as int), all[i as int], "packages"@);
                        lemma_lookup_push(all.take(i as int), all[i as int], "nohoist"@);
                        lemma_lookup_unique(all, i as int);
                    }
                    if key_is(&key, "packages") {
                        match decode_field::<Vec<String>>(x) {
                            Ok(v) => {
                                packages = v;
                            },
                            Err(e) => {
                                return Err(e);
                            },
                        }
                    } else if key_is(&key, "nohoist") {
                        match decode_field::<Vec<String>>(x) {
                            Ok(v) => {
                                nohoist = v;
                            },
                            Err(e) => {
                                return Err(e);
                            },
                        }
                    } else {
                    }
                    i += 1;
                }
                proof {
                    assert(all.take(n as int) == all);
                }
                proof {
                    lemma_field::<Vec<String>>(all, "packages"@, packages, packages);
                    lemma_field::<Vec<String>>(all, "nohoist"@, nohoist, nohoist);
                }
                Ok(WorkspacesObject { packages, nohoist })
            },
            _ => Err(DecodeError::InvalidShape),
        }
    }

    fn into_json(self) -> (j: JsonValue) {
        proof {
            WorkspacesObject::lemma_ranks();
        }
        let WorkspacesObject { packages, nohoist } = self;
        let ghost rk = WorkspacesObject::ranks();
        proof {
            assert(rk("packages"@) == 0);
            assert(rk("nohoist"@) == 1);
        }
        let mut out: Vec<(String, JsonValue)> = Vec::new();
        push_field(&mut out, "packages", packages, Ghost(rk));
        push_field(&mut out, "nohoist", nohoist, Ghost(rk));
        let ghost fixed = out@;
        proof {
            lemma_ranked_unique(out@, rk, 2int);
            assert(out@.take(out@.len() as int) =~= out@);
            assert(ranked(out@.take(out@.len() as int), rk, 2));
            assert(laid_out(out@, rk, 2));
        }
        JsonValue::Object(out)
    }

    proof fn lemma_shape(j: JsonValue, a: WorkspacesObject, b: WorkspacesObject) {
        let s = j->Object_0@;
        lemma_field::<Vec<String>>(s, "packages"@, a.packages, b.packages);
        lemma_field::<Vec<String>>(s, "nohoist"@, a.nohoist, b.nohoist);
    }
}

/// Module paths by condition.
#[derive(Debug)]
pub struct ExportsObject {
    /// The path used when the package is loaded with `require`.
    pub require: Option<String>,
    /// The path used when the package is loaded with `import`.
    pub import: Option<String>,
    /// The path used under Node.js.
    pub node: Option<String>,
    /// The path used when no other condition matches.
    pub default: Option<String>,
    /// Further conditions, in order.
    pub other: OrderedMap<String>,
}

impl ExportsObject {
    /// The place of `k` among the keys of this record's fields, or -1.
    pub open spec fn rank(k: Seq<char>) -> int {
        if k == "require"@ {
            0
        } else if k == "import"@ {
            1
        } else if k == "node"@ {
            2
        } else if k == "default"@ {
            3
        } else {
            -1
        }
    }

    /// Each field's key has its place.
    pub proof fn lemma_ranks()
        ensures
            ExportsObject::rank("require"@) == 0,
            ExportsObject::rank("import"@) == 1,
            ExportsObject::rank("node"@) == 2,
            ExportsObject::rank("default"@) == 3,
    {
        reveal_strlit("require");
        assert("require"@.len() == 7 && "require"@[0] == 'r' && "require"@[1] == 'e' && "require"@[2] == 'q' && "require"@[3] == 'u' && "require"@[4] == 'i' && "require"@[5] == 'r' && "require"@[6] == 'e');
        reveal_strlit("import");
        assert("import"@.len() == 6 && "import"@[0] == 'i' && "import"@[1] == 'm' && "import"@[2] == 'p' && "import"@[3] == 'o' && "import"@[4] == 'r' && "import"@[5] == 't');
        reveal_strlit("node");
        assert("node"@.len() == 4 && "node"@[0] == 'n' && "node"@[1] == 'o' && "node"@[2] == 'd' && "node"@[3] == 'e');
        reveal_strlit("default");
        assert("default"@.len() == 7 && "default"@[0] == 'd' && "default"@[1] == 'e' && "default"@[2] == 'f' && "default"@[3] == 'a' && "default"@[4] == 'u' && "default"@[5] == 'l' && "default"@[6] == 't');
    }

    pub open spec fn ranks() -> spec_fn(Seq<char>) -> int {
        |k: Seq<char>| ExportsObject::rank(k)
    }

    /// The entries `s` of an object read as `v`.
    pub open spec fn fields_are(s: Seq<(String, JsonValue)>, v: ExportsObject) -> bool {
        &&& field_is::<String>(s, "require"@, v.require)
        &&& field_is::<String>(s, "import"@, v.import)
        &&& field_is::<String>(s, "node"@, v.node)
        &&& field_is::<String>(s, "default"@, v.default)
        &&& entries_shape::<String>(s.filter(unknown_by(ExportsObject::ranks())), v.other@)
    }

    /// The entries `s` of an object hold each field in its written form.
    pub open spec fn fields_written(s: Seq<(String, JsonValue)>, v: ExportsObject) -> bool {
        &&& true
        &&& field_written::<String>(s, "require"@, v.require)
        &&& field_written::<String>(s, "import"@, v.import)
        &&& field_written::<String>(s, "node"@, v.node)
        &&& field_written::<String>(s, "default"@, v.default)
    }

    /// The entries `s` of an object can be read as this record.
    pub open spec fn fields_ok(s: Seq<(String, JsonValue)>) -> bool {
        &&& field_ok::<String>(s, "require"@)
        &&& field_ok::<String>(s, "import"@)
        &&& field_ok::<String>(s, "node"@)
        &&& field_ok::<String>(s, "default"@)
        &&& entries_ok::<String>(s.filter(unknown_by(ExportsObject::ranks())))
    }
}

impl JsonShape for ExportsObject {
    open spec fn shape(j: JsonValue, v: ExportsObject) -> bool {
        &&& j is Object
        &&& keys_unique(j->Object_0@)
        &&& ExportsObject::fields_are(j->Object_0@, v)
    }

    open spec fn written(j: JsonValue, v: ExportsObject) -> bool {
        &&& Self::shape(j, v)
        &&& ExportsObject::fields_written(j->Object_0@, v)
        &&& laid_out(j->Object_0@, ExportsObject::ranks(), 4)
    }

    open spec fn decodable(j: JsonValue) -> bool {
        &&& j is Object
        &&& keys_unique(j->Object_0@)
        &&& ExportsObject::fields_ok(j->Object_0@)
    }

    open spec fn same(a: ExportsObject, b: ExportsObject) -> bool {
        &&& opt_same(a.require, b.require)
        &&& opt_same(a.import, b.import)
        &&& opt_same(a.node, b.node)
        &&& opt_same(a.default, b.default)
        &&& OrderedMap::<String>::same(a.other, b.other)
    }

    open spec fn wf(v: ExportsObject) -> bool {
        &&& true
        &&& (v.require is Some ==> String::wf(v.require->Some_0))
        &&& (v.import is Some ==> String::wf(v.import->Some_0))
        &&& (v.node is Some ==> String::wf(v.node->Some_0))
        &&& (v.default is Some ==> String::wf(v.default->Some_0))
        &&& OrderedMap::<String>::wf(v.other)
        &&& forall|i: int| 0 <= i < v.other@.len() ==> ExportsObject::rank((#[trigger] v.other@[i]).0@) < 0
    }

    open spec fn nullable() -> bool {
        false
    }

    #[verifier::rlimit(40)]
    fn from_json(j: JsonValue) -> (r: Result<ExportsObject, DecodeError>) {
        broadcast use lemma_lookup_push;

        let ghost j0 = j;
        let input = j;
        match input {
            JsonValue::Object(entries) => {
                if !unique_keys(&entries) {
                    return Err(DecodeError::DuplicateKey);
                }
                let ghost all = entries@;
                let mut entries = entries;
                let mut require: Option<String> = None;
                let mut import: Option<String> = None;
                let mut node: Option<String> = None;
                let mut default: Option<String> = None;
                let mut other: OrderedMap<String> = OrderedMap::new();
                let n = entries.len();
                let mut i: usize = 0;
                while i < n
                    invariant
                        j0 == j,
                        j0 is Object && j0->Object_0@ == all,
                        keys_unique(all),
                        n == all.len(),
                        i <= n,
                        entries@ == all.subrange(i as int, n as int),
                        field_is::<String>(all.take(i as int), "require"@, require),
                        require is Some ==> String::wf(require->Some_0),
                        field_is::<String>(all.take(i as int), "import"@, import),
                        import is Some ==> String::wf(import->Some_0),
                        field_is::<String>(all.take(i as int), "node"@, node),
                        node is Some ==> String::wf(node->Some_0),
                        field_is::<String>(all.take(i as int), "default"@, default),
                        default is Some ==> String::wf(default->Some_0),
                        entries_shape::<String>(all.take(i as int).filter(unknown_by(ExportsObject::ranks())), other@),
                        forall|m: int, k: int| 0 <= m < other@.len() && i <= k < n ==> (#[trigger] other@[m]).0@ != (#[trigger] all[k]).0@,
                        forall|m: int| 0 <= m < other@.len() ==> String::wf((#[trigger] other@[m]).1) && ExportsObject::rank(other@[m].0@) < 0,
                    decreases n - i,
                {
                    proof {
                        ExportsObject::lemma_ranks();
                    }
                    let (key, x) = entries.remove(0);
                    proof {
                        assert(key == all[i as int].0 && x == all[i as int].1);
                        assert(all.take(i + 1) == all.take(i as int).push(all[i as int]));
                        lemma_lookup_push(all.take(i as int), all[i as int], "require"@);
                        lemma_lookup_push(all.take(i as int), all[i as int], "import"@);
                        lemma_lookup_push(all.take(i as int), all[i as int], "node"@);
                        lemma_lookup_push(all.take(i as int), all[i as int], "default"@);
                        lemma_lookup_unique(all, i as int);
                    }
                    if key_is(&key, "require") {
                        proof {
                            assert(!(unknown_by(ExportsObject::ranks()))(all[i as int]));
                            lemma_known_step(all.take(i as int), all[i as int], other@, unknown_by(ExportsObject::ranks()));
                        }
                        match decode_field::<String>(x) {
                            Ok(v) => {
                                require = v;
                            },
                            Err(e) => {
                                return Err(e);
                            },
                        }
                    } else if key_is(&key, "import") {
                        proof {
                            assert(!(unknown_by(ExportsObject::ranks()))(all[i as int]));
                            lemma_known_step(all.take(i as int), all[i as int], other@, unknown_by(ExportsObject::ranks()));
                        }
                        match decode_field::<String>(x) {
                            Ok(v) => {
                                import = v;
                            },
                            Err(e) => {
                                return Err(e);
                            },
                        }
                    } else if key_is(&key, "node") {
                        proof {
                            assert(!(unknown_by(ExportsObject::ranks()))(all[i as int]));
                            lemma_known_step(all.take(i as int), all[i as int], other@, unknown_by(ExportsObject::ranks()));
                        }
                        match decode_field::<String>(x) {
                            Ok(v) => {
                                node = v;
                            },
                            Err(e) => {
                                return Err(e);
                            },
                        }
                    } else if key_is(&key, "default") {
                        proof {
                            assert(!(unknown_by(ExportsObject::ranks()))(all[i as int]));
                            lemma_known_step(all.take(i as int), all[i as int], other@, unknown_by(ExportsObject::ranks()));
                        }
                        match decode_field::<String>(x) {
                            Ok(v) => {
                                default = v;
                            },
                            Err(e) => {
                                return Err(e);
                            },
                        }
                    } else {
                        proof {
                            assert(ExportsObject::rank(key@) < 0);
                            assert(forall|m: int| 0 <= m < other@.len() ==> (#[trigger] other@[m]).0@ != all[i as int].0@);
                        }
                        let ghost before = other@;
                        match String::from_json(x) {
                            Ok(v) => {
                                let ghost vv = v;
                                other.insert(key, v);
                                proof {
                                    assert(other@ == before.push((all[i as int].0, vv)));
                                    assert((unknown_by(ExportsObject::ranks()))(all[i as int]));
                                    lemma_other_step(all.take(i as int), all[i as int], before, vv, unknown_by(ExportsObject::ranks()));
                                    assert forall|m: int| 0 <= m < other@.len() implies String::wf((#[trigger] other@[m]).1) && ExportsObject::rank(other@[m].0@) < 0 by {
                                        if m < before.len() {
                                            assert(other@[m] == before[m]);
                                        } else {
                                            assert(other@[m] == (all[i as int].0, vv));
                                            assert(ExportsObject::rank(key@) < 0);
                                        }
                                    }
                                    assert forall|m: int, k: int| 0 <= m < other@.len() && i + 1 <= k < n implies (#[trigger] other@[m]).0@ != (#[trigger] all[k]).0@ by {
                                        if m < before.len() {
                                            assert(other@[m] == before[m]);
                                        } else {
                                            assert(all[i as int].0@ != all[k].0@);
                                        }
                                    }
                                }
                            },
                            Err(e) => {
                                proof {
                                    lemma_filter_has(all, unknown_by(ExportsObject::ranks()), i as int);
                                }
                                return Err(e);
                            },
                        }
                    }
                    i += 1;
                }
                proof {
                    assert(all.take(n as int) == all);
                }
                proof {
                    lemma_field::<String>(all, "require"@, require, require);
                    lemma_field::<String>(all, "import"@, import, import);
                    lemma_field::<String>(all, "node"@, node, node);
                    lemma_field::<String>(all, "default"@, default, default);
                    lemma_entries::<String>(all.filter(unknown_by(ExportsObject::ranks())), other@, other@);
                }
                Ok(ExportsObject { require, import, node, default, other })
            },
            _ => Err(DecodeError::InvalidShape),
        }
    }

    fn into_json(self) -> (j: JsonValue) {
        proof {
            ExportsObject::lemma_ranks();
        }
        let ExportsObject { require, import, node, default, other } = self;
        let ghost rk = ExportsObject::ranks();
        proof {
            assert(rk("require"@) == 0);
            assert(rk("import"@) == 1);
            assert(rk("node"@) == 2);
            assert(rk("default"@) == 3);
        }
        let mut out: Vec<(String, JsonValue)> = Vec::new();
        push_field(&mut out, "require", require, Ghost(rk));
        push_field(&mut out, "import", import, Ghost(rk));
        push_field(&mut out, "node", node, Ghost(rk));
        push_field(&mut out, "default", default, Ghost(rk));
        let ghost fixed = out@;
        append_other(&mut out, other, Ghost(rk), Ghost(4int));
        proof {
            assert(out@.take(fixed.len() as int) == fixed);
            assert(ranked(out@.take(fixed.len() as int), rk, 4));
            assert(laid_out(out@, rk, 4));
        }
        JsonValue::Object(out)
    }

    proof fn lemma_shape(j: JsonValue, a: ExportsObject, b: ExportsObject) {
        let s = j->Object_0@;
        lemma_field::<String>(s, "require"@, a.require, b.require);
        lemma_field::<String>(s, "import"@, a.import, b.import);
        lemma_field::<String>(s, "node"@, a.node, b.node);
        lemma_field::<String>(s, "default"@, a.default, b.default);
        lemma_entries::<String>(s.filter(unknown_by(ExportsObject::ranks())), a.other@, b.other@);
    }
}

/// Settings used when the package is published.
#[derive(Debug)]
pub struct PublishConfig {
    /// Who may install the package.
    pub access: Option<PublishConfigAccess>,
    /// The tag to publish under.
    pub tag: Option<String>,
    /// The registry to publish to.
    pub registry: Option<String>,
    /// Further settings, in order.
    pub other: OrderedMap<String>,
}

impl PublishConfig {
    /// The place of `k` among the keys of this record's fields, or -1.
    pub open spec fn rank(k: Seq<char>) -> int {
        if k == "access"@ {
            0
        } else if k == "tag"@ {
            1
        } else if k == "registry"@ {
            2
        } else {
            -1
        }
    }

    /// Each field's key has its place.
    pub proof fn lemma_ranks()
        ensures
            PublishConfig::rank("access"@) == 0,
            PublishConfig::rank("tag"@) == 1,
            PublishConfig::rank("registry"@) == 2,
    {
        reveal_strlit("access");
        assert("access"@.len() == 6 && "access"@[0] == 'a' && "access"@[1] == 'c' && "access"@[2] == 'c' && "access"@[3] == 'e' && "access"@[4] == 's' && "access"@[5] == 's');
        reveal_strlit("tag");
        assert("tag"@.len() == 3 && "tag"@[0] == 't' && "tag"@[1] == 'a' && "tag"@[2] == 'g');
        reveal_strlit("registry");
        assert("registry"@.len() == 8 && "registry"@[0] == 'r' && "registry"@[1] == 'e' && "registry"@[2] == 'g' && "registry"@[3] == 'i' && "registry"@[4] == 's' && "registry"@[5] == 't' && "registry"@[6] == 'r' && "registry"@[7] == 'y');
    }

    pub open spec fn ranks() -> spec_fn(Seq<char>) -> int {
        |k: Seq<char>| PublishConfig::rank(k)
    }

    /// The entries `s` of an object read as `v`.
    pub open spec fn fields_are(s: Seq<(String, JsonValue)>, v: PublishConfig) -> bool {
        &&& field_is::<PublishConfigAccess>(s, "access"@, v.access)
        &&& field_is::<String>(s, "tag"@, v.tag)
        &&& field_is::<String>(s, "registry"@, v.registry)
        &&& entries_shape::<String>(s.filter(unknown_by(PublishConfig::ranks())), v.other@)
    }

    /// The entries `s` of an object hold each field in its written form.
    pub open spec fn fields_written(s: Seq<(String, JsonValue)>, v: PublishConfig) -> bool {
        &&& true
        &&& field_written::<PublishConfigAccess>(s, "access"@, v.access)
        &&& field_written::<String>(s, "tag"@, v.tag)
        &&& field_written::<String>(s, "registry"@, v.registry)
    }

    /// The entries `s` of an object can be read as this record.
    pub open spec fn fields_ok(s: Seq<(String, JsonValue)>) -> bool {
        &&& field_ok::<PublishConfigAccess>(s, "access"@)
        &&& field_ok::<String>(s, "tag"@)
        &&& field_ok::<String>(s, "registry"@)
        &&& entries_ok::<String>(s.filter(unknown_by(PublishConfig::ranks())))
    }
}

impl JsonShape for PublishConfig {
    open spec fn shape(j: JsonValue, v: PublishConfig) -> bool {
        &&& j is Object
        &&& keys_unique(j->Object_0@)
        &&& PublishConfig::fields_are(j->Object_0@, v)
    }

    open spec fn written(j: JsonValue, v: PublishConfig) -> bool {
        &&& Self::shape(j, v)
        &&& PublishConfig::fields_written(j->Object_0@, v)
        &&& laid_out(j->Object_0@, PublishConfig::ranks(), 3)
    }

    open spec fn decodable(j: JsonValue) -> bool {
        &&& j is Object
        &&& keys_unique(j->Object_0@)
        &&& PublishConfig::fields_ok(j->Object_0@)
    }

    open spec fn same(a: PublishConfig, b: PublishConfig) -> bool {
        &&& opt_same(a.access, b.access)
        &&& opt_same(a.tag, b.tag)
        &&& opt_same(a.registry, b.registry)
        &&& OrderedMap::<String>::same(a.other, b.other)
    }

    open spec fn wf(v: PublishConfig) -> bool {
        &&& true
        &&& (v.access is Some ==> PublishConfigAccess::wf(v.access->Some_0))
        &&& (v.tag is Some ==> String::wf(v.tag->Some_0))
        &&& (v.registry is Some ==> String::wf(v.registry->Some_0))
        &&& OrderedMap::<String>::wf(v.other)
        &&& forall|i: int| 0 <= i < v.other@.len() ==> PublishConfig::rank((#[trigger] v.other@[i]).0@) < 0
    }

    open spec fn nullable() -> bool {
        false
    }

    #[verifier::rlimit(40)]
    fn from_json(j: JsonValue) -> (r: Result<PublishConfig, DecodeError>) {
        broadcast use lemma_lookup_push;

        let ghost j0 = j;
        let input = j;
        match input {
            JsonValue::Object(entries) => {
                if !unique_keys(&entries) {
                    return Err(DecodeError::DuplicateKey);
                }
                let ghost all = entries@;
                let mut entries = entries;
                let mut access: Option<PublishConfigAccess> = None;
                let mut tag: Option<String> = None;
                let mut registry: Option<String> = None;
                let mut other: OrderedMap<String> = OrderedMap::new();
                let n = entries.len();
                let mut i: usize = 0;
                while i < n
                    invariant
                        j0 == j,
                        j0 is Object && j0->Object_0@ == all,
                        keys_unique(all),
                        n == all.len(),
                        i <= n,
                        entries@ == all.subrange(i as int, n as int),
                        field_is::<PublishConfigAccess>(all.take(i as int), "access"@, access),
                        access is Some ==> PublishConfigAccess::wf(access->Some_0),
                        field_is::<String>(all.take(i as int), "tag"@, tag),
                        tag is Some ==> String::wf(tag->Some_0),
                        field_is::<String>(all.take(i as int), "registry"@, registry),
                        registry is Some ==> String::wf(registry->Some_0),
                        entries_shape::<String>(all.take(i as int).filter(unknown_by(PublishConfig::ranks())), other@),
                        forall|m: int, k: int| 0 <= m < other@.len() && i <= k < n ==> (#[trigger] other@[m]).0@ != (#[trigger] all[k]).0@,
                        forall|m: int| 0 <= m < other@.len() ==> String::wf((#[trigger] other@[m]).1) && PublishConfig::rank(other@[m].0@) < 0,
                    decreases n - i,
                {
                    proof {
                        PublishConfig::lemma_ranks();
                    }
                    let (key, x) = entries.remove(0);
                    proof {
                        assert(key == all[i as int].0 && x == all[i as int].1);
                        assert(all.take(i + 1) == all.take(i as int).push(all[i as int]));
                        lemma_lookup_push(all.take(i as int), all[i as int], "access"@);
                        lemma_lookup_push(all.take(i as int), all[i as int], "tag"@);
                        lemma_lookup_push(all.take(i as int), all[i as int], "registry"@);
                        lemma_lookup_unique(all, i as int);
                    }
                    if key_is(&key, "access") {
                        proof {
                            assert(!(unknown_by(PublishConfig::ranks()))(all[i as int]));
                            lemma_known_step(all.take(i as int), all[i as int], other@, unknown_by(PublishConfig::ranks()));
                        }
                        match decode_field::<PublishConfigAccess>(x) {
                            Ok(v) => {
                                access = v;
                            },
                            Err(e) => {
                                return Err(e);
                            },
                        }
                    } else if key_is(&key, "tag") {
                        proof {
                            assert(!(unknown_by(PublishConfig::ranks()))(all[i as int]));
                            lemma_known_step(all.take(i as int), all[i as int], other@, unknown_by(PublishConfig::ranks()));
                        }
                        match decode_field::<String>(x) {
                            Ok(v) => {
                                tag = v;
                            },
                            Err(e) => {
                                return Err(e);
                            },
                        }
                    } else if key_is(&key, "registry") {
                        proof {
                            assert(!(unknown_by(PublishConfig::ranks()))(all[i as int]));
                            lemma_known_step(all.take(i as int), all[i as int], other@, unknown_by(PublishConfig::ranks()));
                        }
                        match decode_field::<String>(x) {
                            Ok(v) => {
                                registry = v;
                            },
                            Err(e) => {
                                return Err(e);
                            },
                        }
                    } else {
                        proof {
                            assert(PublishConfig::rank(key@) < 0);
                            assert(forall|m: int| 0 <= m < other@.len() ==> (#[trigger] other@[m]).0@ != all[i as int].0@);
                        }
                        let ghost before = other@;
                        match String::from_json(x) {
                            Ok(v) => {
                                let ghost vv = v;
                                other.insert(key, v);
                                proof {
                                    assert(other@ == before.push((all[i as int].0, vv)));
                                    assert((unknown_by(PublishConfig::ranks()))(all[i as int]));
                                    lemma_other_step(all.take(i as int), all[i as int], before, vv, unknown_by(PublishConfig::ranks()));
                                    assert forall|m: int| 0 <= m < other@.len() implies String::wf((#[trigger] other@[m]).1) && PublishConfig::rank(other@[m].0@) < 0 by {
                                        if m < before.len() {
                                            assert(other@[m] == before[m]);
                                        } else {
                                            assert(other@[m] == (all[i as int].0, vv));
                                            assert(PublishConfig::rank(key@) < 0);
                                        }
                                    }
                                    assert forall|m: int, k: int| 0 <= m < other@.len() && i + 1 <= k < n implies (#[trigger] other@[m]).0@ != (#[trigger] all[k]).0@ by {
                                        if m < before.len() {
                                            assert(other@[m] == before[m]);
                                        } else {
                                            assert(all[i as int].0@ != all[k].0@);
                                        }
                                    }
                                }
                            },
                            Err(e) => {
                                proof {
                                    lemma_filter_has(all, unknown_by(PublishConfig::ranks()), i as int);
                                }
                                return Err(e);
                            },
                        }
                    }
                    i += 1;
                }
                proof {
                    assert(all.take(n as int) == all);
                }
                proof {
                    lemma_field::<PublishConfigAccess>(all, "access"@, access, access);
                    lemma_field::<String>(all, "tag"@, tag, tag);
                    lemma_field::<String>(all, "registry"@, registry, registry);
                    lemma_entries::<String>(all.filter(unknown_by(PublishConfig::ranks())), other@, other@);
                }
                Ok(PublishConfig { access, tag, registry, other })
            },
            _ => Err(DecodeError::InvalidShape),
        }
    }

    fn into_json(self) -> (j: JsonValue) {
        proof {
            PublishConfig::lemma_ranks();
        }
        let PublishConfig { access, tag, registry, other } = self;
        let ghost rk = PublishConfig::ranks();
        proof {
            assert(rk("access"@) == 0);
            assert(rk("tag"@) == 1);
            assert(rk("registry"@) == 2);
        }
        let mut out: Vec<(String, JsonValue)> = Vec::new();
        push_field(&mut out, "access", access, Ghost(rk));
        push_field(&mut out, "tag", tag, Ghost(rk));
        push_field(&mut out, "registry", registry, Ghost(rk));
        let ghost fixed = out@;
        append_other(&mut out, other, Ghost(rk), Ghost(3int));
        proof {
            assert(out@.take(fixed.len() as int) == fixed);
            assert(ranked(out@.take(fixed.len() as int), rk, 3));
            assert(laid_out(out@, rk, 3));
        }
        JsonValue::Object(out)
    }

    proof fn lemma_shape(j: JsonValue, a: PublishConfig, b: PublishConfig) {
        let s = j->Object_0@;
        lemma_field::<PublishConfigAccess>(s, "access"@, a.access, b.access);
        lemma_field::<String>(s, "tag"@, a.tag, b.tag);
        lemma_field::<String>(s, "registry"@, a.registry, b.registry);
        lemma_entries::<String>(s.filter(unknown_by(PublishConfig::ranks())), a.other@, b.other@);
    }
}

} // verus!
