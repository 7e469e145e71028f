use vstd::prelude::*;

verus! {

/// `t` is text that `serde_json::Number` reads as a number.
pub uninterp spec fn number_reads(t: Seq<char>) -> bool;

/// Relies on `serde_json::Number`'s `FromStr`: whether `text` reads as a
/// JSON number.
#[verifier::external_body]
fn number_text_reads(text: &str) -> (r: bool)
    ensures
        r == number_reads(text@),
{
    text.parse::<serde_json::Number>().is_ok()
}

/// A JSON number, held as its text. The text always reads as a number.
#[derive(Debug, PartialEq, Eq)]
pub struct JsonNumber {
    text: String,
}

impl View for JsonNumber {
    type V = Seq<char>;

    closed spec fn view(&self) -> Seq<char> {
        self.text@
    }
}

impl JsonNumber {
    #[verifier::type_invariant]
    spec fn inv(&self) -> bool {
        number_reads(self.text@)
    }

    /// The number written as `text`, if `text` is a JSON number.
    pub fn parse(text: &str) -> (r: Option<JsonNumber>)
        ensures
            r is Some <==> number_reads(text@),
            r is Some ==> r->Some_0@ == text@,
    {
        if number_text_reads(text) {
            Some(JsonNumber { text: text.to_owned() })
        } else {
            None
        }
    }

    /// The number's text.
    pub fn as_str(&self) -> (r: &str)
        ensures
            r@ == self@,
    {
        self.text.as_str()
    }
}

/// A JSON value whose objects keep their keys in document order.
#[derive(Debug, PartialEq, Eq)]
pub enum JsonValue {
    Null,
    Bool(bool),
    Number(JsonNumber),
    Str(String),
    Array(Vec<JsonValue>),
    Object(Vec<(String, JsonValue)>),
}

/// No key occurs twice.
pub open spec fn keys_unique<V>(entries: Seq<(String, V)>) -> bool {
    forall|i: int, j: int|
        0 <= i < entries.len() && 0 <= j < entries.len() && i != j ==> (#[trigger] entries[i]).0@
            != (#[trigger] entries[j]).0@
}

/// Relies on the variants of `serde_json::Value` and on `serde_json::Number`'s
/// `Display`, whose text `FromStr` reads back: one arm each, moving the
/// contents.
#[verifier::external_body]
pub(crate) fn from_serde(v: serde_json::Value) -> JsonValue {
    match v {
        serde_json::Value::Null => JsonValue::Null,
        serde_json::Value::Bool(b) => JsonValue::Bool(b),
        serde_json::Value::Number(n) => JsonValue::Number(JsonNumber { text: n.to_string() }),
        serde_json::Value::String(s) => JsonValue::Str(s),
        serde_json::Value::Array(a) => JsonValue::Array(a.into_iter().map(from_serde).collect()),
        serde_json::Value::Object(o) => JsonValue::Object(o.into_iter().map(|(k, x)| (k, from_serde(x))).collect()),
    }
}

/// Relies on the variants of `serde_json::Value` and on reading a
/// `serde_json::Number` from its text, which succeeds on every `JsonNumber`:
/// one arm each, moving the contents.
#[verifier::external_body]
pub(crate) fn to_serde(v: JsonValue) -> Result<serde_json::Value, serde_json::Error> {
    Ok(match v {
        JsonValue::Null => serde_json::Value::Null,
        JsonValue::Bool(b) => serde_json::Value::Bool(b),
        JsonValue::Number(n) => serde_json::Value::Number(n.text.parse::<serde_json::Number>()?),
        JsonValue::Str(s) => serde_json::Value::String(s),
        JsonValue::Array(a) => serde_json::Value::Array(a.into_iter().map(to_serde).collect::<Result<_, _>>()?),
        JsonValue::Object(o) => serde_json::Value::Object(o.into_iter().map(|(k, x)| to_serde(x).map(|y| (k, y))).collect::<Result<_, _>>()?),
    })
}

} // verus!
