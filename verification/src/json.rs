//! JSON documents as the host writes them, and the bridge to `serde_json`.
//!
//! `JsonValue` holds a parsed JSON document as plain values. Text is parsed by
//! `serde_json`; the parsed `serde_json::Value` is then read node by node
//! through the accessors of `serde_json` and turned into a `JsonValue`.

use vstd::prelude::*;

verus! {

/// A JSON number as `serde_json` holds it: a non-negative integer, a
/// negative integer, or a finite float (by the bits of its binary64 encoding).
#[derive(Debug, Clone, Copy, PartialEq, Eq)]
pub enum JsonNumber {
    PosInt(u64),
    NegInt(i64),
    Float(u64),
}

/// A JSON document; an object holds its members in order.
#[derive(Debug, PartialEq)]
pub enum JsonValue {
    Null,
    Bool(bool),
    Number(JsonNumber),
    String(String),
    Array(Vec<JsonValue>),
    Object(Vec<(String, JsonValue)>),
}

/// The mathematical content of a JSON document.
pub enum JsonView {
    Null,
    Bool(bool),
    Number(JsonNumber),
    String(Seq<char>),
    Array(Seq<JsonView>),
    Object(Seq<(Seq<char>, JsonView)>),
}

impl JsonValue {
    /// The content of the document.
    pub open spec fn model(&self) -> JsonView
        decreases self,
    {
        match self {
            JsonValue::Null => JsonView::Null,
            JsonValue::Bool(b) => JsonView::Bool(*b),
            JsonValue::Number(n) => JsonView::Number(*n),
            JsonValue::String(s) => JsonView::String(s@),
            JsonValue::Array(items) => JsonView::Array(
                Seq::new(
                    items@.len(),
                    |i: int|
                        if 0 <= i < items@.len() {
                            items@[i].model()
                        } else {
                            JsonView::Null
                        },
                ),
            ),
            JsonValue::Object(members) => JsonView::Object(
                Seq::new(
                    members@.len(),
                    |i: int|
                        if 0 <= i < members@.len() {
                            (members@[i].0@, members@[i].1.model())
                        } else {
                            (Seq::empty(), JsonView::Null)
                        },
                ),
            ),
        }
    }
}

impl View for JsonValue {
    type V = JsonView;

    open spec fn view(&self) -> JsonView {
        self.model()
    }
}

/// Whether the keys of the members differ from each other.
pub open spec fn keys_distinct<V>(members: Seq<(Seq<char>, V)>) -> bool {
    forall|i: int, j: int|
        0 <= i < j < members.len() ==> #[trigger] members[i].0 != #[trigger] members[j].0
}

/// Whether every object in the document holds each key once, as a
/// `serde_json` map does.
pub open spec fn json_wf(j: JsonView) -> bool
    decreases j,
{
    match j {
        JsonView::Array(items) => forall|i: int| 0 <= i < items.len() ==> json_wf(#[trigger] items[i]),
        JsonView::Object(members) => {
            &&& keys_distinct(members)
            &&& forall|i: int| 0 <= i < members.len() ==> json_wf(#[trigger] members[i].1)
        },
        _ => true,
    }
}

#[verifier::external_type_specification]
#[verifier::external_body]
pub struct ExJson(serde_json::Value);

/// The JSON document that a `serde_json::Value` holds.
pub uninterp spec fn json_content(v: serde_json::Value) -> JsonView;

/// What `serde_json::from_str::<serde_json::Value>` makes of a text: the
/// document, or the text of its error.
pub uninterp spec fn json_parse_outcome(text: Seq<char>) -> Result<JsonView, Seq<char>>;

/// `serde_json::from_str` into a `serde_json::Value`; the error is turned
/// into its message (`Display`). The claim is only that the outcome is a
/// function of the text, named by `json_parse_outcome`.
#[verifier::external_body]
fn json_from_str(text: &str) -> (r: Result<serde_json::Value, String>)
    ensures
        match r {
            Ok(v) => json_parse_outcome(text@) == Ok::<JsonView, Seq<char>>(json_content(v)),
            Err(m) => json_parse_outcome(text@) == Err::<JsonView, Seq<char>>(m@),
        },
{
    serde_json::from_str::<serde_json::Value>(text).map_err(|e| e.to_string())
}

/// `Value::is_null`: whether the value is `null`.
#[verifier::external_body]
fn json_is_null(v: &serde_json::Value) -> (r: bool)
    ensures
        r == (json_content(*v) is Null),
{
    v.is_null()
}

/// `Value::as_bool`: the boolean of a boolean value.
#[verifier::external_body]
fn json_as_bool(v: &serde_json::Value) -> (r: Option<bool>)
    ensures
        r == (match json_content(*v) {
            JsonView::Bool(b) => Some(b),
            _ => None,
        }),
{
    v.as_bool()
}

/// `Value::as_u64`: a number held as a non-negative integer.
#[verifier::external_body]
fn json_as_u64(v: &serde_json::Value) -> (r: Option<u64>)
    ensures
        r == (match json_content(*v) {
            JsonView::Number(JsonNumber::PosInt(u)) => Some(u),
            _ => None,
        }),
{
    v.as_u64()
}

/// `Value::as_i64`: a number held as an integer that fits in `i64`.
#[verifier::external_body]
fn json_as_i64(v: &serde_json::Value) -> (r: Option<i64>)
    ensures
        r == (match json_content(*v) {
            JsonView::Number(JsonNumber::PosInt(u)) => if u <= i64::MAX {
                Some(u as i64)
            } else {
                None
            },
            JsonView::Number(JsonNumber::NegInt(i)) => Some(i),
            _ => None,
        }),
{
    v.as_i64()
}

/// `Value::as_f64`, by the bits of the float: some float for every number,
/// and for a number held as a float, that float. What an integer converts to
/// is left unsaid.
#[verifier::external_body]
fn json_as_f64_bits(v: &serde_json::Value) -> (r: Option<u64>)
    ensures
        r is Some <==> json_content(*v) is Number,
        json_content(*v) matches JsonView::Number(JsonNumber::Float(b)) ==> r == Some(b),
{
    v.as_f64().map(|f| f.to_bits())
}

/// `Value::as_str`: the text of a string value.
#[verifier::external_body]
fn json_as_str(v: &serde_json::Value) -> (r: Option<&str>)
    ensures
        r is Some <==> json_content(*v) is String,
        r matches Some(s) ==> json_content(*v) == JsonView::String(s@),
{
    v.as_str()
}

/// `Value::as_array`: the elements of an array value.
#[verifier::external_body]
fn json_as_array(v: &serde_json::Value) -> (r: Option<&Vec<serde_json::Value>>)
    ensures
        r is Some <==> json_content(*v) is Array,
        r matches Some(a) ==> json_content(*v) matches JsonView::Array(items) && a@.len()
            == items.len() && forall|i: int|
            0 <= i < items.len() ==> #[trigger] json_content(a@[i]) == items[i],
{
    v.as_array()
}

/// `Value::as_object` and `Map::iter`: the members of an object value, in the
/// order the map yields them; a map holds each key once.
#[verifier::external_body]
fn json_object_members(v: &serde_json::Value) -> (r: Option<Vec<(String, &serde_json::Value)>>)
    ensures
        r is Some <==> json_content(*v) is Object,
        r matches Some(m) ==> json_content(*v) matches JsonView::Object(members) && m@.len()
            == members.len() && keys_distinct(members) && forall|i: int|
            0 <= i < members.len() ==> #[trigger] m@[i].0@ == members[i].0 && json_content(
                *m@[i].1,
            ) == members[i].1,
{
    v.as_object().map(|m| m.iter().map(|(k, x)| (k.clone(), x)).collect())
}

/// Reads a `serde_json::Value` into a `JsonValue`.
pub fn json_value_from(v: &serde_json::Value) -> (r: JsonValue)
    ensures
        r@ == json_content(*v),
        json_wf(r@),
    decreases json_content(*v),
{
    if json_is_null(v) {
        return JsonValue::Null;
    }
    if let Some(b) = json_as_bool(v) {
        return JsonValue::Bool(b);
    }
    if let Some(u) = json_as_u64(v) {
        return JsonValue::Number(JsonNumber::PosInt(u));
    }
    if let Some(i) = json_as_i64(v) {
        return JsonValue::Number(JsonNumber::NegInt(i));
    }
    if let Some(b) = json_as_f64_bits(v) {
        return JsonValue::Number(JsonNumber::Float(b));
    }
    if let Some(s) = json_as_str(v) {
        return JsonValue::String(s.to_owned());
    }
    if let Some(a) = json_as_array(v) {
        let ghost items = json_content(*v)->Array_0;
        let mut out: Vec<JsonValue> = Vec::new();
        let mut i: usize = 0;
        while i < a.len()
            invariant
                json_content(*v) == JsonView::Array(items),
                a@.len() == items.len(),
                forall|k: int| 0 <= k < items.len() ==> #[trigger] json_content(a@[k]) == items[k],
                i <= a.len(),
                out@.len() == i,
                forall|k: int| 0 <= k < i ==> #[trigger] out@[k]@ == items[k],
                forall|k: int| 0 <= k < i ==> json_wf(#[trigger] items[k]),
            decreases a.len() - i,
        {
            proof {
                assert(decreases_to!(json_content(*v) => json_content(*v)->Array_0));
                assert(decreases_to!(items => items[i as int]));
            }
            let x = json_value_from(&a[i]);
            out.push(x);
            i = i + 1;
        }
        let r = JsonValue::Array(out);
        assert(r@ == json_content(*v)) by {
            assert forall|k: int| 0 <= k < items.len() implies #[trigger] r@->Array_0[k] == items[k] by {
                assert(out@[k]@ == items[k]);
            }
            assert(r@->Array_0 =~= items);
        }
        return r;
    }
    let members = json_object_members(v);
    match members {
        Some(m) => {
            let ghost pairs = json_content(*v)->Object_0;
            let mut out: Vec<(String, JsonValue)> = Vec::new();
            let mut i: usize = 0;
            while i < m.len()
                invariant
                    json_content(*v) == JsonView::Object(pairs),
                    m@.len() == pairs.len(),
                    forall|k: int|
                        0 <= k < pairs.len() ==> #[trigger] m@[k].0@ == pairs[k].0 && json_content(
                            *m@[k].1,
                        ) == pairs[k].1,
                    i <= m.len(),
                    out@.len() == i,
                    forall|k: int| 0 <= k < i ==> (#[trigger] out@[k]).0@ == pairs[k].0,
                    forall|k: int| 0 <= k < i ==> (#[trigger] out@[k]).1@ == pairs[k].1,
                    forall|k: int| 0 <= k < i ==> json_wf(#[trigger] pairs[k].1),
                    keys_distinct(pairs),
                decreases m.len() - i,
            {
                proof {
                    assert(m@[i as int].0@ == pairs[i as int].0);
                    assert(decreases_to!(json_content(*v) => json_content(*v)->Object_0));
                    assert(decreases_to!(pairs => pairs[i as int]));
                    assert(decreases_to!(pairs[i as int] => pairs[i as int].1));
                }
                let x = json_value_from(m[i].1);
                let key = m[i].0.clone();
                out.push((key, x));
                i = i + 1;
            }
            let r = JsonValue::Object(out);
            assert(r@ == json_content(*v)) by {
                assert forall|k: int| 0 <= k < pairs.len() implies #[trigger] r@->Object_0[k] == pairs[k] by {
                    assert(out@[k].0@ == pairs[k].0 && out@[k].1@ == pairs[k].1);
                }
                assert(r@->Object_0 =~= pairs);
            }
            r
        },
        None => {
            proof {
                assert(false);
            }
            JsonValue::Null
        },
    }
}

/// Parses JSON text, as `serde_json::from_str` does, into a `JsonValue`; an
/// error carries the message of `serde_json`.
pub fn parse_json(text: &str) -> (r: Result<JsonValue, String>)
    ensures
        match r {
            Ok(v) => json_parse_outcome(text@) == Ok::<JsonView, Seq<char>>(v@) && json_wf(v@),
            Err(m) => json_parse_outcome(text@) == Err::<JsonView, Seq<char>>(m@),
        },
{
    match json_from_str(text) {
        Ok(v) => Ok(json_value_from(&v)),
        Err(m) => Err(m),
    }
}

} // verus!
