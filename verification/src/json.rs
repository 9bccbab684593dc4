//! JSON values as the request handlers read them.
use vstd::prelude::*;

verus! {

/// A JSON value. Compound values carry, besides their parts, the compact text that
/// `serde_json` writes for them (keys of an object in the order that text has).
pub enum JsonValue {
    Null,
    Bool(bool),
    /// A number, as the text that `serde_json` writes for it.
    Number(String),
    Str(String),
    /// The elements, and the compact text of the whole array.
    Array(Vec<JsonValue>, String),
    /// The members in order, and the compact text of the whole object.
    Object(Vec<(String, JsonValue)>, String),
}

/// What the handlers read of a single JSON value: its kind, and the text that stands for it.
pub enum JsonLiteral {
    Null,
    Bool(bool),
    Number(String),
    Str(String),
    /// An array or an object, as its compact text.
    Compound(String),
}

pub enum JsonLiteralView {
    Null,
    Bool(bool),
    Number(Seq<char>),
    Str(Seq<char>),
    Compound(Seq<char>),
}

impl View for JsonLiteral {
    type V = JsonLiteralView;

    open spec fn view(&self) -> JsonLiteralView {
        match self {
            JsonLiteral::Null => JsonLiteralView::Null,
            JsonLiteral::Bool(b) => JsonLiteralView::Bool(*b),
            JsonLiteral::Number(n) => JsonLiteralView::Number(n@),
            JsonLiteral::Str(s) => JsonLiteralView::Str(s@),
            JsonLiteral::Compound(t) => JsonLiteralView::Compound(t@),
        }
    }
}

impl JsonValue {
    /// The literal reading of this value.
    pub open spec fn literal(&self) -> JsonLiteralView {
        match self {
            JsonValue::Null => JsonLiteralView::Null,
            JsonValue::Bool(b) => JsonLiteralView::Bool(*b),
            JsonValue::Number(n) => JsonLiteralView::Number(n@),
            JsonValue::Str(s) => JsonLiteralView::Str(s@),
            JsonValue::Array(_, t) => JsonLiteralView::Compound(t@),
            JsonValue::Object(_, t) => JsonLiteralView::Compound(t@),
        }
    }

    pub fn to_literal(&self) -> (r: JsonLiteral)
        ensures
            r@ == self.literal(),
    {
        match self {
            JsonValue::Null => JsonLiteral::Null,
            JsonValue::Bool(b) => JsonLiteral::Bool(*b),
            JsonValue::Number(n) => JsonLiteral::Number(n.clone()),
            JsonValue::Str(s) => JsonLiteral::Str(s.clone()),
            JsonValue::Array(_, t) => JsonLiteral::Compound(t.clone()),
            JsonValue::Object(_, t) => JsonLiteral::Compound(t.clone()),
        }
    }
}

/// The names of an object's members, in order.
pub open spec fn member_names(m: Seq<(String, JsonValue)>) -> Seq<Seq<char>> {
    m.map_values(|p: (String, JsonValue)| p.0@)
}

/// Whether no name occurs twice among an object's members, as in a JSON map.
pub fn has_distinct_members(m: &Vec<(String, JsonValue)>) -> (b: bool)
    ensures
        b == member_names(m@).no_duplicates(),
{
    let n = m.len();
    let ghost ks = member_names(m@);
    let mut j: usize = 0;
    while j < n
        invariant
            j <= n == m@.len(),
            ks == member_names(m@),
            forall|a: int, b: int| 0 <= a < j && 0 <= b < j && a != b ==> ks[a] != ks[b],
        decreases n - j,
    {
        let mut i: usize = 0;
        while i < j
            invariant
                i <= j < n == m@.len(),
                ks == member_names(m@),
                forall|a: int, b: int| 0 <= a < j && 0 <= b < j && a != b ==> ks[a] != ks[b],
                forall|a: int| 0 <= a < i ==> ks[a] != ks[j as int],
            decreases j - i,
        {
            if m[i].0 == m[j].0 {
                assert(ks[i as int] == ks[j as int]);
                return false;
            }
            i = i + 1;
        }
        j = j + 1;
    }
    true
}

/// What `serde_json::from_str::<serde_json::Value>` reads from a text, as a literal: `None`
/// where the text is no JSON.
pub uninterp spec fn json_reading(raw: Seq<char>) -> Option<JsonLiteralView>;

/// Calls `serde_json::from_str::<serde_json::Value>`, and reads the value it gives by its kind:
/// a number as the text its `Display` writes, an array or object as the compact text its
/// `Display` writes. The result is named `json_reading`; which texts parse, and to what, is
/// not stated.
#[verifier::external_body]
pub fn parse_json_literal(raw: &str) -> (r: Option<JsonLiteral>)
    ensures
        match r {
            Some(l) => json_reading(raw@) == Some(l@),
            None => json_reading(raw@) is None,
        },
{
    match serde_json::from_str::<serde_json::Value>(raw) {
        Ok(serde_json::Value::Null) => Some(JsonLiteral::Null),
        Ok(serde_json::Value::Bool(b)) => Some(JsonLiteral::Bool(b)),
        Ok(serde_json::Value::Number(n)) => Some(JsonLiteral::Number(n.to_string())),
        Ok(serde_json::Value::String(s)) => Some(JsonLiteral::Str(s)),
        Ok(v) => Some(JsonLiteral::Compound(v.to_string())),
        Err(_) => None,
    }
}

} // verus!
