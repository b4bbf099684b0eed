//! How values travel as JSON between the host and a plugin.
//!
//! Scalars, lists and dictionaries map onto their JSON counterparts; Arrow
//! pointers, geometries and plots become objects whose keys mark them
//! (`__arrow_array_ptr__`/`__arrow_schema_ptr__`, `__geometry_wkt__`,
//! `__plot_spec__`/`__plot_format__`), so that the host can tell them from
//! plain strings and dictionaries.

use vstd::prelude::*;
use crate::float_bits::{f64_is_finite, is_finite, large_u64_to_f64, large_u64_to_f64_bits};
use crate::json::{json_content, json_value_from, json_wf, JsonNumber, JsonValue, JsonView};
use crate::value::{value_wf, HayashiValue, ValueView};
use crate::error::HayashiError;

verus! {

/// The key of an Arrow array address.
pub open spec fn arrow_array_key() -> Seq<char> {
    "__arrow_array_ptr__"@
}

/// The key of an Arrow schema address.
pub open spec fn arrow_schema_key() -> Seq<char> {
    "__arrow_schema_ptr__"@
}

/// The key of a geometry's WKT.
pub open spec fn geometry_key() -> Seq<char> {
    "__geometry_wkt__"@
}

/// The key of a plot's spec.
pub open spec fn plot_spec_key() -> Seq<char> {
    "__plot_spec__"@
}

/// The key of a plot's format.
pub open spec fn plot_format_key() -> Seq<char> {
    "__plot_format__"@
}

/// The value of the first member with the given key.
pub open spec fn member_lookup(members: Seq<(Seq<char>, JsonView)>, key: Seq<char>) -> Option<
    JsonView,
>
    decreases members.len(),
{
    if members.len() == 0 {
        None
    } else if members[0].0 == key {
        Some(members[0].1)
    } else {
        member_lookup(members.drop_first(), key)
    }
}

/// The value that a JSON number stands for: an integer that fits in `i64`
/// becomes an `Int`, any other number a `Float`.
pub open spec fn number_value(n: JsonNumber) -> ValueView {
    match n {
        JsonNumber::PosInt(u) => if u <= i64::MAX {
            ValueView::Int(u as i64)
        } else {
            ValueView::Float(large_u64_to_f64(u))
        },
        JsonNumber::NegInt(i) => ValueView::Int(i),
        JsonNumber::Float(b) => ValueView::Float(b),
    }
}

/// The marked value an object stands for, if its members mark one: both
/// Arrow addresses as non-negative integers, else a geometry's WKT as a
/// string, else both plot fields as strings.
pub open spec fn marked_value(members: Seq<(Seq<char>, JsonView)>) -> Option<ValueView> {
    let a = member_lookup(members, arrow_array_key());
    let s = member_lookup(members, arrow_schema_key());
    let w = member_lookup(members, geometry_key());
    let ps = member_lookup(members, plot_spec_key());
    let pf = member_lookup(members, plot_format_key());
    match (a, s) {
        (
            Some(JsonView::Number(JsonNumber::PosInt(ap))),
            Some(JsonView::Number(JsonNumber::PosInt(sp))),
        ) => Some(ValueView::Arrow(ap as usize, sp as usize)),
        _ => match w {
            Some(JsonView::String(wkt)) => Some(ValueView::Geometry(wkt)),
            _ => match (ps, pf) {
                (Some(JsonView::String(spec)), Some(JsonView::String(format))) => Some(
                    ValueView::Plot { spec, format },
                ),
                _ => None,
            },
        },
    }
}

/// The value that a JSON document stands for.
pub open spec fn decode_json(j: JsonView) -> ValueView
    decreases j,
{
    match j {
        JsonView::Null => ValueView::Nil,
        JsonView::Bool(b) => ValueView::Bool(b),
        JsonView::Number(n) => number_value(n),
        JsonView::String(s) => ValueView::Str(s),
        JsonView::Array(items) => ValueView::List(
            Seq::new(
                items.len(),
                |i: int|
                    if 0 <= i < items.len() {
                        decode_json(items[i])
                    } else {
                        ValueView::Nil
                    },
            ),
        ),
        JsonView::Object(members) => match marked_value(members) {
            Some(v) => v,
            None => ValueView::Dict(
                Seq::new(
                    members.len(),
                    |i: int|
                        if 0 <= i < members.len() {
                            (members[i].0, decode_json(members[i].1))
                        } else {
                            (Seq::empty(), ValueView::Nil)
                        },
                ),
            ),
        },
    }
}

/// The JSON document that a value is written as. A float that is not finite
/// has no JSON number and is written as `null`.
pub open spec fn encode_value(v: ValueView) -> JsonView
    decreases v,
{
    match v {
        ValueView::Float(b) => if f64_is_finite(b) {
            JsonView::Number(JsonNumber::Float(b))
        } else {
            JsonView::Null
        },
        ValueView::Int(i) => if i < 0 {
            JsonView::Number(JsonNumber::NegInt(i))
        } else {
            JsonView::Number(JsonNumber::PosInt(i as u64))
        },
        ValueView::Bool(b) => JsonView::Bool(b),
        ValueView::Str(s) => JsonView::String(s),
        ValueView::List(items) => JsonView::Array(
            Seq::new(
                items.len(),
                |i: int|
                    if 0 <= i < items.len() {
                        encode_value(items[i])
                    } else {
                        JsonView::Null
                    },
            ),
        ),
        ValueView::Dict(entries) => JsonView::Object(
            Seq::new(
                entries.len(),
                |i: int|
                    if 0 <= i < entries.len() {
                        (entries[i].0, encode_value(entries[i].1))
                    } else {
                        (Seq::empty(), JsonView::Null)
                    },
            ),
        ),
        ValueView::Arrow(a, s) => JsonView::Object(
            seq![
                (arrow_array_key(), JsonView::Number(JsonNumber::PosInt(a as u64))),
                (arrow_schema_key(), JsonView::Number(JsonNumber::PosInt(s as u64))),
            ],
        ),
        ValueView::Geometry(w) => JsonView::Object(seq![(geometry_key(), JsonView::String(w))]),
        ValueView::Plot { spec, format } => JsonView::Object(
            seq![
                (plot_spec_key(), JsonView::String(spec)),
                (plot_format_key(), JsonView::String(format)),
            ],
        ),
        ValueView::Nil => JsonView::Null,
    }
}

/// The members of an object document, by their content.
pub open spec fn members_view(members: Seq<(String, JsonValue)>) -> Seq<(Seq<char>, JsonView)> {
    Seq::new(members.len(), |i: int| (members[i].0@, members[i].1@))
}

proof fn lemma_object_members(members: &Vec<(String, JsonValue)>)
    ensures
        JsonValue::Object(*members)@ == JsonView::Object(members_view(members@)),
{
    assert(JsonValue::Object(*members)@->Object_0 =~= members_view(members@));
}

/// The value of the first member with the given key.
fn lookup<'a>(members: &'a Vec<(String, JsonValue)>, key: &str) -> (r: Option<&'a JsonValue>)
    ensures
        match r {
            Some(x) => member_lookup(members_view(members@), key@) == Some(x@),
            None => member_lookup(members_view(members@), key@) is None,
        },
{
    let ghost all = members_view(members@);
    let wanted = key.to_owned();
    let mut i: usize = 0;
    proof {
        assert(all.skip(0) =~= all);
    }
    while i < members.len()
        invariant
            all == members_view(members@),
            wanted@ == key@,
            i <= members.len(),
            member_lookup(all, key@) == member_lookup(all.skip(i as int), key@),
        decreases members.len() - i,
    {
        proof {
            assert(all.skip(i as int)[0] == all[i as int]);
            assert(all.skip(i as int).drop_first() =~= all.skip(i + 1));
        }
        if members[i].0 == wanted {
            return Some(&members[i].1);
        }
        i = i + 1;
    }
    proof {
        assert(all.skip(i as int).len() == 0);
    }
    None
}

/// An object of one member.
fn object1(k0: String, v0: JsonValue) -> (r: JsonValue)
    ensures
        r@ == JsonView::Object(seq![(k0@, v0@)]),
{
    let ghost e0 = (k0@, v0@);
    let mut members: Vec<(String, JsonValue)> = Vec::new();
    members.push((k0, v0));
    let r = JsonValue::Object(members);
    assert(r@->Object_0[0] == e0);
    assert(r@->Object_0 =~= seq![e0]);
    r
}

/// An object of two members, in this order.
fn object2(k0: String, v0: JsonValue, k1: String, v1: JsonValue) -> (r: JsonValue)
    ensures
        r@ == JsonView::Object(seq![(k0@, v0@), (k1@, v1@)]),
{
    let ghost e0 = (k0@, v0@);
    let ghost e1 = (k1@, v1@);
    let mut members: Vec<(String, JsonValue)> = Vec::new();
    members.push((k0, v0));
    members.push((k1, v1));
    let r = JsonValue::Object(members);
    assert(r@->Object_0[0] == e0);
    assert(r@->Object_0[1] == e1);
    assert(r@->Object_0 =~= seq![e0, e1]);
    r
}

/// A JSON number as a value.
fn number_to_value(n: JsonNumber) -> (r: HayashiValue)
    ensures
        r@ == number_value(n),
{
    match n {
        JsonNumber::PosInt(u) => if u <= i64::MAX as u64 {
            HayashiValue::Int(u as i64)
        } else {
            HayashiValue::Float(large_u64_to_f64_bits(u))
        },
        JsonNumber::NegInt(i) => HayashiValue::Int(i),
        JsonNumber::Float(b) => HayashiValue::Float(b),
    }
}

/// The marked value an object's members stand for, if any.
fn marked_members(members: &Vec<(String, JsonValue)>) -> (r: Option<HayashiValue>)
    ensures
        match r {
            Some(v) => marked_value(members_view(members@)) == Some(v@),
            None => marked_value(members_view(members@)) is None,
        },
{
    let a = lookup(members, "__arrow_array_ptr__");
    let s = lookup(members, "__arrow_schema_ptr__");
    if let (Some(JsonValue::Number(JsonNumber::PosInt(ap))), Some(
        JsonValue::Number(JsonNumber::PosInt(sp)),
    )) = (a, s) {
        return Some(HayashiValue::Arrow(*ap as usize, *sp as usize));
    }
    if let Some(JsonValue::String(wkt)) = lookup(members, "__geometry_wkt__") {
        return Some(HayashiValue::Geometry(wkt.clone()));
    }
    let ps = lookup(members, "__plot_spec__");
    let pf = lookup(members, "__plot_format__");
    if let (Some(JsonValue::String(spec)), Some(JsonValue::String(format))) = (ps, pf) {
        return Some(HayashiValue::Plot { spec: spec.clone(), format: format.clone() });
    }
    None
}

impl HayashiValue {
    /// The value a JSON document stands for (never fails).
    pub fn from_json(j: &JsonValue) -> (r: HayashiValue)
        ensures
            r@ == decode_json(j@),
            json_wf(j@) ==> value_wf(r@),
        decreases j,
    {
        match j {
            JsonValue::Null => HayashiValue::Nil,
            JsonValue::Bool(b) => HayashiValue::Bool(*b),
            JsonValue::Number(n) => number_to_value(*n),
            JsonValue::String(s) => HayashiValue::Str(s.clone()),
            JsonValue::Array(items) => {
                let ghost jv = j@->Array_0;
                let mut out: Vec<HayashiValue> = Vec::new();
                let mut i: usize = 0;
                while i < items.len()
                    invariant
                        jv == j@->Array_0,
                        j@ is Array,
                        *j == JsonValue::Array(*items),
                        i <= items.len(),
                        out@.len() == i,
                        forall|k: int| 0 <= k < i ==> (#[trigger] out@[k])@ == decode_json(jv[k]),
                        json_wf(j@) ==> forall|k: int| 0 <= k < i ==> value_wf(#[trigger] out@[k]@),
                    decreases items.len() - i,
                {
                    let x = HayashiValue::from_json(&items[i]);
                    proof {
                        assert(jv[i as int] == items@[i as int]@);
                    }
                    out.push(x);
                    i = i + 1;
                }
                let r = HayashiValue::List(out);
                assert(r@->List_0 =~= decode_json(j@)->List_0) by {
                    assert forall|k: int| 0 <= k < out@.len() implies #[trigger] r@->List_0[k]
                        == decode_json(j@)->List_0[k] by {
                        assert(out@[k]@ == decode_json(jv[k]));
                    }
                }
                r
            },
            JsonValue::Object(members) => {
                proof {
                    lemma_object_members(members);
                }
                match marked_members(members) {
                    Some(v) => v,
                    None => {
                        let ghost mv = members_view(members@);
                        let mut out: Vec<(String, HayashiValue)> = Vec::new();
                        let mut i: usize = 0;
                        while i < members.len()
                            invariant
                                mv == members_view(members@),
                                *j == JsonValue::Object(*members),
                                j@ == JsonView::Object(mv),
                                i <= members.len(),
                                out@.len() == i,
                                forall|k: int| 0 <= k < i ==> (#[trigger] out@[k]).0@ == mv[k].0,
                                forall|k: int|
                                    0 <= k < i ==> (#[trigger] out@[k]).1@ == decode_json(mv[k].1),
                                json_wf(j@) ==> forall|k: int|
                                    0 <= k < i ==> value_wf(#[trigger] out@[k].1@),
                            decreases members.len() - i,
                        {
                            proof {
                                assert(decreases_to!(*j => (*j)->Object_0));
                                assert(decreases_to!(*members => members@));
                                assert(decreases_to!(members@ => members@[i as int]));
                                assert(decreases_to!(members@[i as int] => members@[i as int].1));
                            }
                            let x = HayashiValue::from_json(&members[i].1);
                            proof {
                                if json_wf(j@) {
                                    assert(json_wf(mv[i as int].1));
                                }
                            }
                            out.push((members[i].0.clone(), x));
                            i = i + 1;
                        }
                        let r = HayashiValue::Dict(out);
                        assert(r@->Dict_0 =~= decode_json(j@)->Dict_0) by {
                            assert forall|k: int| 0 <= k < out@.len() implies #[trigger] r@->Dict_0[k]
                                == decode_json(j@)->Dict_0[k] by {
                                assert(out@[k].0@ == mv[k].0);
                                assert(out@[k].1@ == decode_json(mv[k].1));
                            }
                        }
                        r
                    },
                }
            },
        }
    }

    /// The JSON document the value is written as (what the host receives).
    pub fn to_serde(&self) -> (r: JsonValue)
        ensures
            r@ == encode_value(self@),
        decreases self,
    {
        match self {
            HayashiValue::Float(b) => if is_finite(*b) {
                JsonValue::Number(JsonNumber::Float(*b))
            } else {
                JsonValue::Null
            },
            HayashiValue::Int(i) => if *i < 0 {
                JsonValue::Number(JsonNumber::NegInt(*i))
            } else {
                JsonValue::Number(JsonNumber::PosInt(*i as u64))
            },
            HayashiValue::Bool(b) => JsonValue::Bool(*b),
            HayashiValue::Str(s) => JsonValue::String(s.clone()),
            HayashiValue::Nil => JsonValue::Null,
            HayashiValue::List(items) => {
                let mut out: Vec<JsonValue> = Vec::new();
                let mut i: usize = 0;
                while i < items.len()
                    invariant
                        *self == HayashiValue::List(*items),
                        i <= items.len(),
                        out@.len() == i,
                        forall|k: int|
                            0 <= k < i ==> (#[trigger] out@[k])@ == encode_value(items@[k]@),
                    decreases items.len() - i,
                {
                    proof {
                        assert(decreases_to!(*self => (*self)->List_0));
                        assert(decreases_to!(*items => items@));
                        assert(decreases_to!(items@ => items@[i as int]));
                    }
                    let x = items[i].to_serde();
                    out.push(x);
                    i = i + 1;
                }
                let r = JsonValue::Array(out);
                assert(r@->Array_0 =~= encode_value(self@)->Array_0) by {
                    assert forall|k: int| 0 <= k < out@.len() implies #[trigger] r@->Array_0[k]
                        == encode_value(self@)->Array_0[k] by {
                        assert(out@[k]@ == encode_value(items@[k]@));
                    }
                }
                r
            },
            HayashiValue::Dict(entries) => {
                let mut out: Vec<(String, JsonValue)> = Vec::new();
                let mut i: usize = 0;
                while i < entries.len()
                    invariant
                        *self == HayashiValue::Dict(*entries),
                        i <= entries.len(),
                        out@.len() == i,
                        forall|k: int| 0 <= k < i ==> (#[trigger] out@[k]).0@ == entries@[k].0@,
                        forall|k: int|
                            0 <= k < i ==> (#[trigger] out@[k]).1@ == encode_value(entries@[k].1@),
                    decreases entries.len() - i,
                {
                    proof {
                        assert(decreases_to!(*self => (*self)->Dict_0));
                        assert(decreases_to!(*entries => entries@));
                        assert(decreases_to!(entries@ => entries@[i as int]));
                        assert(decreases_to!(entries@[i as int] => entries@[i as int].1));
                    }
                    let x = entries[i].1.to_serde();
                    out.push((entries[i].0.clone(), x));
                    i = i + 1;
                }
                let r = JsonValue::Object(out);
                assert(r@->Object_0 =~= encode_value(self@)->Object_0) by {
                    assert forall|k: int| 0 <= k < out@.len() implies #[trigger] r@->Object_0[k]
                        == encode_value(self@)->Object_0[k] by {
                        assert(out@[k].0@ == entries@[k].0@);
                        assert(out@[k].1@ == encode_value(entries@[k].1@));
                    }
                }
                r
            },
            HayashiValue::Arrow(a, s) => {
                let array_key = "__arrow_array_ptr__".to_owned();
                let schema_key = "__arrow_schema_ptr__".to_owned();
                object2(
                    array_key,
                    JsonValue::Number(JsonNumber::PosInt(*a as u64)),
                    schema_key,
                    JsonValue::Number(JsonNumber::PosInt(*s as u64)),
                )
            },
            HayashiValue::Geometry(w) => {
                let key = "__geometry_wkt__".to_owned();
                object1(key, JsonValue::String(w.clone()))
            },
            HayashiValue::Plot { spec, format } => {
                let spec_key = "__plot_spec__".to_owned();
                let format_key = "__plot_format__".to_owned();
                object2(
                    spec_key,
                    JsonValue::String(spec.clone()),
                    format_key,
                    JsonValue::String(format.clone()),
                )
            },
        }
    }

    /// Builds a value from a `serde_json::Value` (never fails).
    pub fn from_serde(jval: &serde_json::Value) -> (r: Result<HayashiValue, HayashiError>)
        ensures
            r matches Ok(v) && v@ == decode_json(json_content(*jval)) && value_wf(v@),
    {
        let j = json_value_from(jval);
        Ok(HayashiValue::from_json(&j))
    }
}

} // verus!
