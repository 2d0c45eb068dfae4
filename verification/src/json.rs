use vstd::prelude::*;

verus! {

/// A JSON value as the asset registry holds it.
///
/// Objects carry their members in the order serde_json keeps them (sorted by key, each key
/// once) together with their compact JSON text, which is what location properties record.
#[derive(Debug)]
pub enum JsonValue {
    Null,
    Bool(bool),
    /// A number, held as its JSON text.
    Number(String),
    Str(String),
    Array(Vec<JsonValue>),
    Object(Vec<JsonMember>, String),
}

/// One member of a JSON object.
#[derive(Debug)]
pub struct JsonMember {
    pub key: String,
    pub value: JsonValue,
}

/// Names what serde_json says of two texts: each is parsed with
/// `serde_json::from_str::<serde_json::Value>` (a text that does not parse stands for
/// `null`), and the two values are compared with `==`.
pub uninterp spec fn json_values_equal(a: Seq<char>, b: Seq<char>) -> bool;

/// Parses both texts with `serde_json::from_str::<serde_json::Value>`, taking `null` for a
/// text that does not parse, and compares the two values with `Value`'s `==`. The result is
/// named `json_values_equal(a, b)`.
#[verifier::external_body]
pub(crate) fn same_json_value(a: &str, b: &str) -> (r: bool)
    ensures
        r == json_values_equal(a@, b@),
{
    let x = match serde_json::from_str::<serde_json::Value>(a) {
        Ok(value) => value,
        Err(_) => serde_json::Value::Null,
    };
    let y = match serde_json::from_str::<serde_json::Value>(b) {
        Ok(value) => value,
        Err(_) => serde_json::Value::Null,
    };
    x == y
}

} // verus!
