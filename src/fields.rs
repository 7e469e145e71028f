use vstd::prelude::*;

use crate::json::{keys_unique, JsonValue};
use crate::shape::JsonShape;

verus! {

/// The value of the last entry with key `k`.
pub open spec fn lookup(s: Seq<(String, JsonValue)>, k: Seq<char>) -> Option<JsonValue>
    decreases s.len(),
{
    if s.len() == 0 {
        None
    } else if s.last().0@ == k {
        Some(s.last().1)
    } else {
        lookup(s.drop_last(), k)
    }
}

/// The optional field under `k` reads as `f`: absent or `null` is `None`.
pub open spec fn field_is<T: JsonShape>(s: Seq<(String, JsonValue)>, k: Seq<char>, f: Option<T>) -> bool {
    match lookup(s, k) {
        None => f is None,
        Some(x) => if x is Null {
            f is None
        } else {
            f is Some && T::shape(x, f->Some_0)
        },
    }
}

/// The optional field under `k` is written as `f`: no key when `f` is
/// `None`, else the written form of its value.
pub open spec fn field_written<T: JsonShape>(s: Seq<(String, JsonValue)>, k: Seq<char>, f: Option<T>) -> bool {
    match f {
        None => lookup(s, k) is None,
        Some(x) => lookup(s, k) is Some && T::written(lookup(s, k)->Some_0, x),
    }
}

/// The required field under `k` is written as `v`.
pub open spec fn required_written<T: JsonShape>(s: Seq<(String, JsonValue)>, k: Seq<char>, v: T) -> bool {
    lookup(s, k) is Some && T::written(lookup(s, k)->Some_0, v)
}

/// The entries `s` hold first the known keys, in the order `rank` gives them,
/// then only keys that `rank` does not know.
pub open spec fn laid_out(s: Seq<(String, JsonValue)>, rank: spec_fn(Seq<char>) -> int, n: int) -> bool {
    exists|m: int|
        0 <= m <= s.len() && ranked(#[trigger] s.take(m), rank, n) && forall|i: int|
            m <= i < s.len() ==> rank((#[trigger] s[i]).0@) < 0
}

/// The optional field under `k` is absent, `null`, or has the form of `T`.
pub open spec fn field_ok<T: JsonShape>(s: Seq<(String, JsonValue)>, k: Seq<char>) -> bool {
    match lookup(s, k) {
        None => true,
        Some(x) => x is Null || T::decodable(x),
    }
}

/// The required field under `k` reads as `v`.
pub open spec fn required_is<T: JsonShape>(s: Seq<(String, JsonValue)>, k: Seq<char>, v: T) -> bool {
    lookup(s, k) is Some && T::shape(lookup(s, k)->Some_0, v)
}

/// The required field under `k` is present and has the form of `T`.
pub open spec fn required_ok<T: JsonShape>(s: Seq<(String, JsonValue)>, k: Seq<char>) -> bool {
    lookup(s, k) is Some && T::decodable(lookup(s, k)->Some_0)
}

/// The required field under `k`, read so far as `f`.
pub open spec fn required_so_far<T: JsonShape>(s: Seq<(String, JsonValue)>, k: Seq<char>, f: Option<T>) -> bool {
    match lookup(s, k) {
        None => f is None,
        Some(x) => f is Some && T::shape(x, f->Some_0),
    }
}

/// Two optional values hold the same data.
pub open spec fn opt_same<T: JsonShape>(a: Option<T>, b: Option<T>) -> bool {
    match (a, b) {
        (None, None) => true,
        (Some(x), Some(y)) => T::same(x, y),
        _ => false,
    }
}

/// The object entries `s` are, in order, the JSON forms of the entries `m`.
pub open spec fn entries_shape<V: JsonShape>(s: Seq<(String, JsonValue)>, m: Seq<(String, V)>) -> bool {
    &&& s.len() == m.len()
    &&& forall|i: int| 0 <= i < s.len() ==> (#[trigger] s[i]).0 == m[i].0 && V::shape(s[i].1, m[i].1)
}

/// Every value of the object entries `s` has the form of `V`.
pub open spec fn entries_ok<V: JsonShape>(s: Seq<(String, JsonValue)>) -> bool {
    forall|i: int| 0 <= i < s.len() ==> V::decodable(#[trigger] s[i].1)
}

pub broadcast proof fn lemma_lookup_push(s: Seq<(String, JsonValue)>, e: (String, JsonValue), k: Seq<char>)
    ensures
        #[trigger] lookup(s.push(e), k) == if e.0@ == k {
            Some(e.1)
        } else {
            lookup(s, k)
        },
{
    assert(s.push(e).drop_last() =~= s);
}

/// In entries with unique keys, the entry at `i` is the one found under its key.
pub proof fn lemma_lookup_unique(s: Seq<(String, JsonValue)>, i: int)
    requires
        keys_unique(s),
        0 <= i < s.len(),
    ensures
        lookup(s, s[i].0@) == Some(s[i].1),
    decreases s.len(),
{
    if i < s.len() - 1 {
        assert(s.last().0@ != s[i].0@);
        let d = s.drop_last();
        assert(d[i] == s[i]);
        assert forall|a: int, b: int| 0 <= a < d.len() && 0 <= b < d.len() && a != b implies (
        #[trigger] d[a]).0@ != (#[trigger] d[b]).0@ by {
            assert(d[a] == s[a] && d[b] == s[b]);
        }
        lemma_lookup_unique(d, i);
    }
}

/// A key that no entry has is not found.
pub proof fn lemma_lookup_absent(s: Seq<(String, JsonValue)>, k: Seq<char>)
    requires
        forall|i: int| 0 <= i < s.len() ==> (#[trigger] s[i]).0@ != k,
    ensures
        lookup(s, k) is None,
    decreases s.len(),
{
    if s.len() > 0 {
        let d = s.drop_last();
        assert forall|i: int| 0 <= i < d.len() implies (#[trigger] d[i]).0@ != k by {
            assert(d[i] == s[i]);
        }
        lemma_lookup_absent(d, k);
    }
}

/// Object entries in the JSON form of a list of entries decode, and determine
/// them.
pub proof fn lemma_entries<V: JsonShape>(s: Seq<(String, JsonValue)>, a: Seq<(String, V)>, b: Seq<(String, V)>)
    requires
        entries_shape(s, a),
    ensures
        entries_ok::<V>(s),
        entries_shape(s, b) ==> forall|i: int|
            0 <= i < a.len() ==> (#[trigger] a[i]).0 == b[i].0 && V::same(a[i].1, b[i].1),
{
    assert forall|i: int| 0 <= i < s.len() implies V::decodable(#[trigger] s[i].1) by {
        V::lemma_shape(s[i].1, a[i].1, a[i].1);
    }
    if entries_shape(s, b) {
        assert forall|i: int| 0 <= i < a.len() implies (#[trigger] a[i]).0 == b[i].0 && V::same(
            a[i].1,
            b[i].1,
        ) by {
            assert(s[i].0 == a[i].0);
            V::lemma_shape(s[i].1, a[i].1, b[i].1);
        }
    }
}

/// An entry at `i` that passes `p` is in `s.filter(p)`.
pub proof fn lemma_filter_has(s: Seq<(String, JsonValue)>, p: spec_fn((String, JsonValue)) -> bool, i: int)
    requires
        0 <= i < s.len(),
        p(s[i]),
    ensures
        exists|m: int| 0 <= m < s.filter(p).len() && #[trigger] s.filter(p)[m] == s[i],
{
    let a = s.take(i + 1);
    let b = s.skip(i + 1);
    assert(s == a + b);
    Seq::filter_distributes_over_add(a, b, p);
    assert(a == s.take(i).push(s[i]));
    Seq::lemma_filter_push(s.take(i), s[i], p);
    let m = s.take(i).filter(p).len() as int;
    assert(s.filter(p)[m] == s[i]);
}

/// Reading one more entry, which goes to the unknown keys.
pub proof fn lemma_other_step<V: JsonShape>(
    t: Seq<(String, JsonValue)>,
    e: (String, JsonValue),
    m: Seq<(String, V)>,
    v: V,
    p: spec_fn((String, JsonValue)) -> bool,
)
    requires
        entries_shape(t.filter(p), m),
        p(e),
        V::shape(e.1, v),
    ensures
        entries_shape(t.push(e).filter(p), m.push((e.0, v))),
{
    Seq::lemma_filter_push(t, e, p);
    let f = t.filter(p);
    assert forall|i: int| 0 <= i < f.push(e).len() implies (#[trigger] f.push(e)[i]).0 == m.push(
        (e.0, v),
    )[i].0 && V::shape(f.push(e)[i].1, m.push((e.0, v))[i].1) by {
        if i < f.len() {
            assert(f.push(e)[i] == f[i]);
            assert(m.push((e.0, v))[i] == m[i]);
        }
    }
}

/// Reading one more entry, which a field takes.
pub proof fn lemma_known_step<V: JsonShape>(
    t: Seq<(String, JsonValue)>,
    e: (String, JsonValue),
    m: Seq<(String, V)>,
    p: spec_fn((String, JsonValue)) -> bool,
)
    requires
        entries_shape(t.filter(p), m),
        !p(e),
    ensures
        entries_shape(t.push(e).filter(p), m),
{
    Seq::lemma_filter_push(t, e, p);
}

/// The optional field read from a present or absent value.
pub proof fn lemma_field<T: JsonShape>(
    s: Seq<(String, JsonValue)>,
    k: Seq<char>,
    a: Option<T>,
    b: Option<T>,
)
    requires
        field_is(s, k, a),
    ensures
        field_ok::<T>(s, k),
        field_is(s, k, b) ==> opt_same(a, b),
{
    if let Some(x) = lookup(s, k) {
        if !(x is Null) {
            T::lemma_shape(x, a->Some_0, a->Some_0);
            if field_is(s, k, b) {
                T::lemma_shape(x, a->Some_0, b->Some_0);
            }
        }
    }
}

/// The required field read from a present value.
pub proof fn lemma_required<T: JsonShape>(s: Seq<(String, JsonValue)>, k: Seq<char>, a: T, b: T)
    requires
        required_is(s, k, a),
    ensures
        required_ok::<T>(s, k),
        required_is(s, k, b) ==> T::same(a, b),
{
    T::lemma_shape(lookup(s, k)->Some_0, a, b);
}

/// Reads an optional field's value: `null` is `None`.
pub fn decode_field<T: JsonShape>(v: JsonValue) -> (r: Result<Option<T>, crate::error::DecodeError>)
    ensures
        r is Ok <==> (v is Null || T::decodable(v)),
        r is Err ==> r->Err_0 == crate::error::DecodeError::InvalidShape || r->Err_0
            == crate::error::DecodeError::DuplicateKey,
        r is Ok ==> r->Ok_0 is Some ==> T::wf(r->Ok_0->Some_0),
        r is Ok ==> (if v is Null {
            r->Ok_0 is None
        } else {
            r->Ok_0 is Some && T::shape(v, r->Ok_0->Some_0)
        }),
{
    match v {
        JsonValue::Null => Ok(None),
        other => {
            match T::from_json(other) {
                Ok(x) => Ok(Some(x)),
                Err(e) => Err(e),
            }
        },
    }
}

/// The keys of `s` are known to `rank`, in increasing order, and all below
/// `below`.
pub open spec fn ranked(s: Seq<(String, JsonValue)>, rank: spec_fn(Seq<char>) -> int, below: int) -> bool {
    &&& forall|a: int| 0 <= a < s.len() ==> 0 <= #[trigger] rank(s[a].0@) < below
    &&& forall|a: int, b: int|
        0 <= a < b < s.len() ==> rank((#[trigger] s[a]).0@) < rank((#[trigger] s[b]).0@)
}

/// Entries whose key `rank` does not know.
pub open spec fn unknown_by(rank: spec_fn(Seq<char>) -> int) -> spec_fn((String, JsonValue)) -> bool {
    |e: (String, JsonValue)| rank(e.0@) < 0
}

pub proof fn lemma_ranked_unique(s: Seq<(String, JsonValue)>, rank: spec_fn(Seq<char>) -> int, below: int)
    requires
        ranked(s, rank, below),
    ensures
        keys_unique(s),
        s.filter(unknown_by(rank)) == Seq::<(String, JsonValue)>::empty(),
    decreases s.len(),
{
    assert forall|a: int, b: int| 0 <= a < s.len() && 0 <= b < s.len() && a != b implies (
    #[trigger] s[a]).0@ != (#[trigger] s[b]).0@ by {
        if a < b {
            assert(rank(s[a].0@) < rank(s[b].0@));
        } else {
            assert(rank(s[b].0@) < rank(s[a].0@));
        }
    }
    if s.len() > 0 {
        let d = s.drop_last();
        assert forall|a: int| 0 <= a < d.len() implies 0 <= #[trigger] rank(d[a].0@) < below by {
            assert(d[a] == s[a]);
        }
        assert forall|a: int, b: int| 0 <= a < b < d.len() implies rank((#[trigger] d[a]).0@) < rank(
            (#[trigger] d[b]).0@,
        ) by {
            assert(d[a] == s[a] && d[b] == s[b]);
        }
        lemma_ranked_unique(d, rank, below);
        assert(rank(s[s.len() - 1].0@) >= 0);
        assert(!(unknown_by(rank))(s.last()));
        assert(s =~= d.push(s.last()));
        Seq::lemma_filter_push(d, s.last(), unknown_by(rank));
    } else {
        reveal(Seq::filter);
        assert(s =~= Seq::<(String, JsonValue)>::empty());
    }
}

/// Appends the JSON form of an optional field under `key`, if it has a value.
pub fn push_field<T: JsonShape>(
    out: &mut Vec<(String, JsonValue)>,
    key: &str,
    f: Option<T>,
    Ghost(rank): Ghost<spec_fn(Seq<char>) -> int>,
)
    requires
        !T::nullable(),
        f is Some ==> T::wf(f->Some_0),
        rank(key@) >= 0,
        ranked(old(out)@, rank, rank(key@)),
    ensures
        ranked(final(out)@, rank, rank(key@) + 1),
        field_is(final(out)@, key@, f),
        field_written(final(out)@, key@, f),
        forall|k: Seq<char>|
            rank(k) != rank(key@) ==> #[trigger] lookup(final(out)@, k) == lookup(old(out)@, k),
{
    broadcast use lemma_lookup_push;

    proof {
        assert forall|a: int| 0 <= a < old(out)@.len() implies (#[trigger] old(out)@[a]).0@
            != key@ by {
            assert(rank(old(out)@[a].0@) < rank(key@));
        }
        lemma_lookup_absent(old(out)@, key@);
    }
    match f {
        Some(x) => {
            let j = x.into_json();
            out.push((key.to_owned(), j));
        },
        None => {},
    }
}

/// Appends the JSON form of a required field under `key`.
pub fn push_required<T: JsonShape>(
    out: &mut Vec<(String, JsonValue)>,
    key: &str,
    v: T,
    Ghost(rank): Ghost<spec_fn(Seq<char>) -> int>,
)
    requires
        T::wf(v),
        rank(key@) >= 0,
        ranked(old(out)@, rank, rank(key@)),
    ensures
        ranked(final(out)@, rank, rank(key@) + 1),
        required_is(final(out)@, key@, v),
        required_written(final(out)@, key@, v),
        forall|k: Seq<char>|
            rank(k) != rank(key@) ==> #[trigger] lookup(final(out)@, k) == lookup(old(out)@, k),
{
    broadcast use lemma_lookup_push;

    let j = v.into_json();
    out.push((key.to_owned(), j));
}

/// Appends the entries of `other`, whose keys `rank` does not know.
pub fn append_other<V: JsonShape>(
    out: &mut Vec<(String, JsonValue)>,
    other: crate::ordered_map::OrderedMap<V>,
    Ghost(rank): Ghost<spec_fn(Seq<char>) -> int>,
    Ghost(below): Ghost<int>,
)
    requires
        ranked(old(out)@, rank, below),
        forall|i: int| 0 <= i < other@.len() ==> rank((#[trigger] other@[i]).0@) < 0,
        forall|i: int| 0 <= i < other@.len() ==> V::wf(#[trigger] other@[i].1),
    ensures
        keys_unique(final(out)@),
        final(out)@.len() >= old(out)@.len(),
        final(out)@.take(old(out)@.len() as int) == old(out)@,
        forall|i: int| old(out)@.len() <= i < final(out)@.len() ==> rank((#[trigger] final(out)@[i]).0@) < 0,
        forall|k: Seq<char>| rank(k) >= 0 ==> #[trigger] lookup(final(out)@, k) == lookup(old(out)@, k),
        entries_shape(final(out)@.filter(unknown_by(rank)), other@),
{
    broadcast use lemma_lookup_push, Seq::lemma_filter_push;

    let ghost start = old(out)@;
    let ghost all = other@;
    proof {
        lemma_ranked_unique(start, rank, below);
    }
    let mut v = other.into_entries();
    let n = v.len();
    let mut i: usize = 0;
    while i < n
        invariant
            n == all.len(),
            i <= n,
            v@ == all.subrange(i as int, n as int),
            keys_unique(all),
            forall|m: int| 0 <= m < all.len() ==> rank((#[trigger] all[m]).0@) < 0,
            forall|m: int| 0 <= m < all.len() ==> V::wf(#[trigger] all[m].1),
            ranked(start, rank, below),
            keys_unique(start),
            out@.len() == start.len() + i,
            forall|m: int| 0 <= m < start.len() ==> #[trigger] out@[m] == start[m],
            forall|m: int| start.len() <= m < out@.len() ==> (#[trigger] out@[m]).0 == all[m - start.len()].0,
            keys_unique(out@),
            forall|k: Seq<char>| rank(k) >= 0 ==> #[trigger] lookup(out@, k) == lookup(start, k),
            entries_shape(out@.filter(unknown_by(rank)), all.take(i as int)),
        decreases n - i,
    {
        let (key, x) = v.remove(0);
        assert(key == all[i as int].0 && x == all[i as int].1);
        let j = x.into_json();
        let ghost before = out@;
        out.push((key, j));
        proof {
            let e = out@[out@.len() - 1];
            assert(out@ == before.push(e));
            assert(e.0 == all[i as int].0);
            assert(rank(e.0@) < 0);
            assert((unknown_by(rank))(e));
            Seq::lemma_filter_push(before, e, unknown_by(rank));
            let f = before.filter(unknown_by(rank));
            let t = all.take(i as int);
            assert forall|m: int| 0 <= m < f.push(e).len() implies (#[trigger] f.push(e)[m]).0
                == t.push(all[i as int])[m].0 && V::shape(f.push(e)[m].1, t.push(all[i as int])[m].1) by {
                if m < f.len() {
                    assert(f.push(e)[m] == f[m]);
                    assert(t.push(all[i as int])[m] == t[m]);
                }
            }
            assert(all.take(i + 1) == all.take(i as int).push(all[i as int]));
            assert forall|a: int, b: int| 0 <= a < out@.len() && 0 <= b < out@.len() && a != b implies (
            #[trigger] out@[a]).0@ != (#[trigger] out@[b]).0@ by {
                if a < before.len() && b < before.len() {
                    assert(before[a] == out@[a] && before[b] == out@[b]);
                } else if a == before.len() && b < start.len() {
                    assert(rank(out@[b].0@) >= 0);
                } else if b == before.len() && a < start.len() {
                    assert(rank(out@[a].0@) >= 0);
                } else if a == before.len() {
                    assert(out@[b].0 == all[b - start.len()].0);
                    assert(all[i as int].0@ != all[b - start.len()].0@);
                } else if b == before.len() {
                    assert(out@[a].0 == all[a - start.len()].0);
                    assert(all[i as int].0@ != all[a - start.len()].0@);
                }
            }
            assert forall|k: Seq<char>| rank(k) >= 0 implies #[trigger] lookup(out@, k) == lookup(start, k) by {
                lemma_lookup_push(before, e, k);
            }
        }
        i += 1;
    }
    proof {
        assert(all.take(n as int) == all);
        assert(out@.take(start.len() as int) =~= start);
        assert forall|m: int| start.len() <= m < out@.len() implies rank((#[trigger] out@[m]).0@) < 0 by {
            assert(out@[m].0 == all[m - start.len()].0);
        }
    }
}

/// Reads an optional field from the value found under its key, if any.
pub fn decode_slot<T: JsonShape>(s: Option<JsonValue>) -> (r: Result<Option<T>, crate::error::DecodeError>)
    ensures
        r is Ok <==> (match s {
            None => true,
            Some(v) => v is Null || T::decodable(v),
        }),
        r is Err ==> r->Err_0 == crate::error::DecodeError::InvalidShape || r->Err_0
            == crate::error::DecodeError::DuplicateKey,
        r is Ok ==> r->Ok_0 is Some ==> T::wf(r->Ok_0->Some_0),
        r is Ok ==> (match s {
            None => r->Ok_0 is None,
            Some(v) => if v is Null {
                r->Ok_0 is None
            } else {
                r->Ok_0 is Some && T::shape(v, r->Ok_0->Some_0)
            },
        }),
{
    match s {
        None => Ok(None),
        Some(v) => decode_field(v),
    }
}

/// Compares a key with a name.
pub fn key_is(key: &String, name: &str) -> (r: bool)
    ensures
        r == (key@ == name@),
{
    *key == name.to_owned()
}

} // verus!
