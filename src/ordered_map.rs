use vstd::prelude::*;

use crate::error::DecodeError;
use crate::json::{keys_unique, JsonValue};
use crate::shape::JsonShape;

verus! {

/// A mapping from string keys to values that keeps its keys in insertion
/// order. Keys are unique.
#[derive(Debug)]
pub struct OrderedMap<V> {
    entries: Vec<(String, V)>,
}

impl<V> View for OrderedMap<V> {
    type V = Seq<(String, V)>;

    closed spec fn view(&self) -> Seq<(String, V)> {
        self.entries@
    }
}

impl<V> OrderedMap<V> {
    #[verifier::type_invariant]
    spec fn inv(&self) -> bool {
        keys_unique(self.entries@)
    }

    /// The entries, in order.
    pub fn entries(&self) -> (r: &Vec<(String, V)>)
        ensures
            r@ == self@,
    {
        &self.entries
    }

    /// The entries, in order, taking the mapping apart.
    pub fn into_entries(self) -> (r: Vec<(String, V)>)
        ensures
            r@ == self@,
            keys_unique(r@),
    {
        proof {
            use_type_invariant(&self);
        }
        self.entries
    }

    /// An empty mapping.
    pub fn new() -> (r: Self)
        ensures
            r@.len() == 0,
    {
        OrderedMap { entries: Vec::new() }
    }

    /// The number of entries.
    pub fn len(&self) -> (r: usize)
        ensures
            r == self@.len(),
    {
        self.entries.len()
    }

    /// The index of the entry with key `key`, if there is one.
    pub fn find(&self, key: &str) -> (r: Option<usize>)
        ensures
            r is Some ==> r->Some_0 < self@.len() && self@[r->Some_0 as int].0@
                == key@,
            r is None ==> forall|i: int| 0 <= i < self@.len() ==> (#[trigger] self@[i]).0@ != key@,
    {
        let wanted = key.to_owned();
        let mut i: usize = 0;
        while i < self.entries.len()
            invariant
                wanted@ == key@,
                i <= self.entries@.len(),
                forall|k: int| 0 <= k < i ==> (#[trigger] self.entries@[k]).0@ != key@,
            decreases self.entries@.len() - i,
        {
            if self.entries[i].0 == wanted {
                return Some(i);
            }
            i += 1;
        }
        None
    }

    /// The value stored under `key`, if any.
    pub fn get(&self, key: &str) -> (r: Option<&V>)
        ensures
            r is Some <==> exists|i: int| 0 <= i < self@.len() && (#[trigger] self@[i]).0@ == key@,
            r is Some ==> exists|i: int|
                0 <= i < self@.len() && (#[trigger] self@[i]).0@ == key@ && self@[i].1 == *r->Some_0,
    {
        match self.find(key) {
            Some(i) => Some(&self.entries[i].1),
            None => None,
        }
    }

    /// Stores `value` under `key`: an existing entry keeps its place and takes
    /// the new value, a new key goes to the end.
    pub fn insert(&mut self, key: String, value: V)
        ensures
            (exists|i: int|
                0 <= i < old(self)@.len() && (#[trigger] old(self)@[i]).0@
                    == key@) ==> exists|i: int|
                0 <= i < old(self)@.len() && (#[trigger] old(self)@[i]).0@
                    == key@ && final(self)@ == old(self)@.update(i, (key, value)),
            (forall|i: int|
                0 <= i < old(self)@.len() ==> (#[trigger] old(self)@[i]).0@
                    != key@) ==> final(self)@ == old(self)@.push((key, value)),
    {
        let found = self.find(key.as_str());
        let mut taken = OrderedMap::new();
        std::mem::swap(self, &mut taken);
        let mut entries = taken.into_entries();
        match found {
            Some(i) => {
                entries.set(i, (key, value));
                assert(keys_unique(entries@)) by {
                    assert forall|a: int, b: int|
                        0 <= a < entries@.len() && 0 <= b < entries@.len() && a != b
                        implies (#[trigger] entries@[a]).0@ != (#[trigger] entries@[b]).0@ by {
                        assert(old(self)@[a].0@ != old(self)@[b].0@);
                    }
                }
            },
            None => {
                entries.push((key, value));
                assert(keys_unique(entries@)) by {
                    assert forall|a: int, b: int|
                        0 <= a < entries@.len() && 0 <= b < entries@.len() && a != b
                        implies (#[trigger] entries@[a]).0@ != (#[trigger] entries@[b]).0@ by {
                        if a < old(self)@.len() && b < old(self)@.len() {
                            assert(old(self)@[a].0@ != old(self)@[b].0@);
                        } else if a < old(self)@.len() {
                            assert(old(self)@[a].0@ != key@);
                        } else {
                            assert(old(self)@[b].0@ != key@);
                        }
                    }
                }
            },
        }
        *self = OrderedMap { entries };
    }
}

/// A JSON object whose values all have the form of `V`, in the same order.
impl<V: JsonShape> JsonShape for OrderedMap<V> {
    open spec fn shape(j: JsonValue, v: OrderedMap<V>) -> bool {
        &&& j is Object
        &&& j->Object_0@.len() == v@.len()
        &&& keys_unique(v@)
        &&& forall|i: int|
            0 <= i < v@.len() ==> (#[trigger] j->Object_0@[i]).0 == v@[i].0
                && V::shape(j->Object_0@[i].1, v@[i].1)
    }

    open spec fn decodable(j: JsonValue) -> bool {
        &&& j is Object
        &&& keys_unique(j->Object_0@)
        &&& forall|i: int|
            0 <= i < j->Object_0@.len() ==> V::decodable(#[trigger] j->Object_0@[i].1)
    }

    open spec fn same(a: OrderedMap<V>, b: OrderedMap<V>) -> bool {
        &&& a@.len() == b@.len()
        &&& forall|i: int|
            0 <= i < a@.len() ==> (#[trigger] a@[i]).0 == b@[i].0
                && V::same(a@[i].1, b@[i].1)
    }

    open spec fn written(j: JsonValue, v: OrderedMap<V>) -> bool {
        &&& Self::shape(j, v)
        &&& forall|i: int| 0 <= i < v@.len() ==> V::written((#[trigger] j->Object_0@[i]).1, v@[i].1)
    }

    open spec fn wf(v: OrderedMap<V>) -> bool {
        forall|i: int| 0 <= i < v@.len() ==> V::wf(#[trigger] v@[i].1)
    }

    open spec fn nullable() -> bool {
        false
    }

    fn from_json(j: JsonValue) -> (r: Result<OrderedMap<V>, DecodeError>) {
        let ghost j0 = j;
        let input = j;
        match input {
            JsonValue::Object(entries) => {
                if !unique_keys(&entries) {
                    return Err(DecodeError::DuplicateKey);
                }
                let ghost all = entries@;
                let mut entries = entries;
                let mut out: Vec<(String, V)> = Vec::new();
                let mut i: usize = 0;
                let n = entries.len();
                while i < n
                    invariant
                        j0 == j,
                        j0 is Object && j0->Object_0@ == all,
                        keys_unique(all),
                        n == all.len(),
                        i <= n,
                        entries@ == all.subrange(i as int, n as int),
                        out@.len() == i,
                        forall|k: int|
                            0 <= k < i ==> (#[trigger] out@[k]).0 == all[k].0 && V::shape(
                                all[k].1,
                                out@[k].1,
                            ),
                        forall|k: int| 0 <= k < i ==> V::decodable(#[trigger] all[k].1),
                        forall|k: int| 0 <= k < i ==> V::wf(#[trigger] out@[k].1),
                    decreases n - i,
                {
                    let (key, x) = entries.remove(0);
                    assert(key == all[i as int].0 && x == all[i as int].1);
                    match V::from_json(x) {
                        Ok(v) => out.push((key, v)),
                        Err(e) => {
                            assert(!V::decodable(j0->Object_0@[i as int].1));
                            return Err(e);
                        },
                    }
                    i += 1;
                }
                let r = OrderedMap { entries: out };
                assert forall|a: int, b: int|
                    0 <= a < r.entries@.len() && 0 <= b < r.entries@.len() && a != b implies (
                    #[trigger] r.entries@[a]).0@ != (#[trigger] r.entries@[b]).0@ by {
                    assert(all[a].0@ != all[b].0@);
                }
                Ok(r)
            },
            _ => Err(DecodeError::InvalidShape),
        }
    }

    fn into_json(self) -> (j: JsonValue) {
        let ghost all = self@;
        let mut v = self.into_entries();
        let mut out: Vec<(String, JsonValue)> = Vec::new();
        let mut i: usize = 0;
        let n = v.len();
        while i < n
            invariant
                n == all.len(),
                i <= n,
                v@ == all.subrange(i as int, n as int),
                forall|k: int| 0 <= k < n ==> V::wf(#[trigger] all[k].1),
                out@.len() == i,
                forall|k: int|
                    0 <= k < i ==> (#[trigger] out@[k]).0 == all[k].0 && V::shape(
                        out@[k].1,
                        all[k].1,
                    ) && V::written(out@[k].1, all[k].1),
            decreases n - i,
        {
            let (key, x) = v.remove(0);
            assert(key == all[i as int].0 && x == all[i as int].1);
            out.push((key, x.into_json()));
            i += 1;
        }
        JsonValue::Object(out)
    }

    proof fn lemma_shape(j: JsonValue, a: OrderedMap<V>, b: OrderedMap<V>) {
        let e = j->Object_0@;
        assert forall|i: int| 0 <= i < e.len() implies V::decodable(#[trigger] e[i].1) by {
            V::lemma_shape(e[i].1, a@[i].1, a@[i].1);
        }
        assert forall|x: int, y: int| 0 <= x < e.len() && 0 <= y < e.len() && x != y implies (
        #[trigger] e[x]).0@ != (#[trigger] e[y]).0@ by {
            assert(a@[x].0@ != a@[y].0@);
        }
        if Self::shape(j, b) {
            assert forall|i: int| 0 <= i < a@.len() implies (
            #[trigger] a@[i]).0 == b@[i].0 && V::same(
                a@[i].1,
                b@[i].1,
            ) by {
                assert(e[i].0 == a@[i].0);
                V::lemma_shape(e[i].1, a@[i].1, b@[i].1);
            }
        }
    }
}

/// No two entries share a key.
pub fn unique_keys<V>(entries: &Vec<(String, V)>) -> (r: bool)
    ensures
        r == keys_unique(entries@),
{
    let mut i: usize = 0;
    while i < entries.len()
        invariant
            i <= entries@.len(),
            forall|a: int, b: int|
                0 <= a < i && 0 <= b < entries@.len() && a != b ==> (#[trigger] entries@[a]).0@
                    != (#[trigger] entries@[b]).0@,
        decreases entries@.len() - i,
    {
        let mut k: usize = 0;
        while k < entries.len()
            invariant
                i < entries@.len(),
                k <= entries@.len(),
                forall|a: int, b: int|
                    0 <= a < i && 0 <= b < entries@.len() && a != b ==> (
                    #[trigger] entries@[a]).0@ != (#[trigger] entries@[b]).0@,
                forall|b: int| 0 <= b < k && b != i ==> entries@[i as int].0@ != (
                #[trigger] entries@[b]).0@,
            decreases entries@.len() - k,
        {
            if k != i && entries[i].0 == entries[k].0 {
                return false;
            }
            k += 1;
        }
        i += 1;
    }
    true
}

} // verus!
