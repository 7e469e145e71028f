use vstd::prelude::*;

use crate::error::DecodeError;
use crate::json::JsonValue;

verus! {

/// A type with a JSON form.
///
/// `shape(j, v)` says that `j` is the JSON form of `v`. Decoding a value and
/// encoding it again gives back a value of the same form.
pub trait JsonShape: Sized {
    /// `j` is the JSON form of `v`.
    spec fn shape(j: JsonValue, v: Self) -> bool;

    /// `j` has the form of some value of this type.
    spec fn decodable(j: JsonValue) -> bool;

    /// `a` and `b` hold the same data, field by field.
    spec fn same(a: Self, b: Self) -> bool;

    /// `j` is the form in which `v` is written: the JSON form of `v` with
    /// nothing left open (object keys in declaration order, absent fields
    /// left out).
    spec fn written(j: JsonValue, v: Self) -> bool;

    /// `v` is well formed: it can be written out and read back.
    spec fn wf(v: Self) -> bool;

    /// The JSON form of some value may be `null`.
    spec fn nullable() -> bool;

    /// Reads a value from its JSON form.
    fn from_json(j: JsonValue) -> (r: Result<Self, DecodeError>)
        ensures
            r is Ok <==> Self::decodable(j),
            r is Ok ==> Self::shape(j, r->Ok_0) && Self::wf(r->Ok_0),
            r is Err ==> r->Err_0 == DecodeError::InvalidShape || r->Err_0
                == DecodeError::DuplicateKey,
    ;

    /// Writes a value in its JSON form.
    fn into_json(self) -> (j: JsonValue)
        requires
            Self::wf(self),
        ensures
            Self::shape(j, self),
            Self::written(j, self),
            !Self::nullable() ==> !(j is Null),
    ;

    /// The JSON form of a value decodes, and determines the value.
    proof fn lemma_shape(j: JsonValue, a: Self, b: Self)
        requires
            Self::shape(j, a),
        ensures
            Self::decodable(j),
            Self::shape(j, b) ==> Self::same(a, b),
    ;
}

impl JsonShape for String {
    open spec fn shape(j: JsonValue, v: String) -> bool {
        j == JsonValue::Str(v)
    }

    open spec fn decodable(j: JsonValue) -> bool {
        j is Str
    }

    open spec fn same(a: String, b: String) -> bool {
        a == b
    }

    open spec fn written(j: JsonValue, v: String) -> bool {
        Self::shape(j, v)
    }

    open spec fn wf(v: String) -> bool {
        true
    }

    open spec fn nullable() -> bool {
        false
    }

    fn from_json(j: JsonValue) -> (r: Result<String, DecodeError>) {
        match j {
            JsonValue::Str(s) => Ok(s),
            _ => Err(DecodeError::InvalidShape),
        }
    }

    fn into_json(self) -> (j: JsonValue) {
        JsonValue::Str(self)
    }

    proof fn lemma_shape(j: JsonValue, a: String, b: String) {
    }
}

impl JsonShape for bool {
    open spec fn shape(j: JsonValue, v: bool) -> bool {
        j == JsonValue::Bool(v)
    }

    open spec fn decodable(j: JsonValue) -> bool {
        j is Bool
    }

    open spec fn same(a: bool, b: bool) -> bool {
        a == b
    }

    open spec fn written(j: JsonValue, v: bool) -> bool {
        Self::shape(j, v)
    }

    open spec fn wf(v: bool) -> bool {
        true
    }

    open spec fn nullable() -> bool {
        false
    }

    fn from_json(j: JsonValue) -> (r: Result<bool, DecodeError>) {
        match j {
            JsonValue::Bool(b) => Ok(b),
            _ => Err(DecodeError::InvalidShape),
        }
    }

    fn into_json(self) -> (j: JsonValue) {
        JsonValue::Bool(self)
    }

    proof fn lemma_shape(j: JsonValue, a: bool, b: bool) {
    }
}

/// Any JSON value, kept as it is.
impl JsonShape for JsonValue {
    open spec fn shape(j: JsonValue, v: JsonValue) -> bool {
        j == v
    }

    open spec fn decodable(j: JsonValue) -> bool {
        true
    }

    open spec fn same(a: JsonValue, b: JsonValue) -> bool {
        a == b
    }

    open spec fn written(j: JsonValue, v: JsonValue) -> bool {
        Self::shape(j, v)
    }

    open spec fn wf(v: JsonValue) -> bool {
        true
    }

    open spec fn nullable() -> bool {
        true
    }

    fn from_json(j: JsonValue) -> (r: Result<JsonValue, DecodeError>) {
        Ok(j)
    }

    fn into_json(self) -> (j: JsonValue) {
        self
    }

    proof fn lemma_shape(j: JsonValue, a: JsonValue, b: JsonValue) {
    }
}

/// A string that may be `null`.
impl JsonShape for Option<String> {
    open spec fn shape(j: JsonValue, v: Option<String>) -> bool {
        match v {
            None => j is Null,
            Some(x) => j == JsonValue::Str(x),
        }
    }

    open spec fn decodable(j: JsonValue) -> bool {
        j is Null || j is Str
    }

    open spec fn same(a: Option<String>, b: Option<String>) -> bool {
        a == b
    }

    open spec fn written(j: JsonValue, v: Option<String>) -> bool {
        Self::shape(j, v)
    }

    open spec fn wf(v: Option<String>) -> bool {
        true
    }

    open spec fn nullable() -> bool {
        true
    }

    fn from_json(j: JsonValue) -> (r: Result<Option<String>, DecodeError>) {
        match j {
            JsonValue::Null => Ok(None),
            JsonValue::Str(s) => Ok(Some(s)),
            _ => Err(DecodeError::InvalidShape),
        }
    }

    fn into_json(self) -> (j: JsonValue) {
        match self {
            None => JsonValue::Null,
            Some(x) => JsonValue::Str(x),
        }
    }

    proof fn lemma_shape(j: JsonValue, a: Option<String>, b: Option<String>) {
    }
}

/// A JSON array whose items all have the form of `T`.
impl<T: JsonShape> JsonShape for Vec<T> {
    open spec fn shape(j: JsonValue, v: Vec<T>) -> bool {
        &&& j is Array
        &&& j->Array_0@.len() == v@.len()
        &&& forall|i: int| 0 <= i < v@.len() ==> #[trigger] T::shape(j->Array_0@[i], v@[i])
    }

    open spec fn decodable(j: JsonValue) -> bool {
        &&& j is Array
        &&& forall|i: int| 0 <= i < j->Array_0@.len() ==> #[trigger] T::decodable(j->Array_0@[i])
    }

    open spec fn same(a: Vec<T>, b: Vec<T>) -> bool {
        &&& a@.len() == b@.len()
        &&& forall|i: int| 0 <= i < a@.len() ==> #[trigger] T::same(a@[i], b@[i])
    }

    open spec fn written(j: JsonValue, v: Vec<T>) -> bool {
        &&& Self::shape(j, v)
        &&& forall|i: int| 0 <= i < v@.len() ==> #[trigger] T::written(j->Array_0@[i], v@[i])
    }

    open spec fn wf(v: Vec<T>) -> bool {
        forall|i: int| 0 <= i < v@.len() ==> T::wf(#[trigger] v@[i])
    }

    open spec fn nullable() -> bool {
        false
    }

    fn from_json(j: JsonValue) -> (r: Result<Vec<T>, DecodeError>) {
        let ghost j0 = j;
        let input = j;
        match input {
            JsonValue::Array(items) => {
                let ghost all = items@;
                let mut items = items;
                let mut out: Vec<T> = Vec::new();
                let mut i: usize = 0;
                let n = items.len();
                while i < n
                    invariant
                        j0 == j,
                        j0 is Array && j0->Array_0@ == all,
                        n == all.len(),
                        i <= n,
                        items@ == all.subrange(i as int, n as int),
                        out@.len() == i,
                        forall|k: int| 0 <= k < i ==> #[trigger] T::shape(all[k], out@[k]),
                        forall|k: int| 0 <= k < i ==> T::decodable(#[trigger] all[k]),
                        forall|k: int| 0 <= k < i ==> T::wf(#[trigger] out@[k]),
                    decreases n - i,
                {
                    let x = items.remove(0);
                    assert(x == all[i as int]);
                    match T::from_json(x) {
                        Ok(v) => out.push(v),
                        Err(e) => {
                            assert(!T::decodable(j0->Array_0@[i as int]));
                            return Err(e);
                        },
                    }
                    i += 1;
                }
                Ok(out)
            },
            _ => Err(DecodeError::InvalidShape),
        }
    }

    fn into_json(self) -> (j: JsonValue) {
        let ghost all = self@;
        let mut v = self;
        let mut out: Vec<JsonValue> = Vec::new();
        let mut i: usize = 0;
        let n = v.len();
        while i < n
            invariant
                n == all.len(),
                i <= n,
                v@ == all.subrange(i as int, n as int),
                forall|k: int| 0 <= k < n ==> T::wf(#[trigger] all[k]),
                out@.len() == i,
                forall|k: int| 0 <= k < i ==> #[trigger] T::shape(out@[k], all[k]),
                forall|k: int| 0 <= k < i ==> #[trigger] T::written(out@[k], all[k]),
            decreases n - i,
        {
            let x = v.remove(0);
            assert(x == all[i as int]);
            out.push(x.into_json());
            i += 1;
        }
        JsonValue::Array(out)
    }

    proof fn lemma_shape(j: JsonValue, a: Vec<T>, b: Vec<T>) {
        assert forall|i: int| 0 <= i < j->Array_0@.len() implies #[trigger] T::decodable(
            j->Array_0@[i],
        ) by {
            T::lemma_shape(j->Array_0@[i], a@[i], a@[i]);
        }
        if Self::shape(j, b) {
            assert forall|i: int| 0 <= i < a@.len() implies #[trigger] T::same(a@[i], b@[i]) by {
                T::lemma_shape(j->Array_0@[i], a@[i], b@[i]);
            }
        }
    }
}

} // verus!
