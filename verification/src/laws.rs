//! Laws that relate the library's operations to each other.

use vstd::prelude::*;
use crate::encoding::{
    arrow_array_key, arrow_schema_key, decode_json, encode_value, geometry_key, marked_value,
    member_lookup, plot_format_key, plot_spec_key,
};
use crate::float_bits::f64_is_finite;
use crate::json::{json_wf, keys_distinct, JsonNumber, JsonView};
use crate::value::{kind_name_of, value_wf, Geometry, HayashiValue, Plot, Seed, ValueView};
use crate::convert::{
    entries_from, float_source_from, list_from, string_source_from, FromHayashi, IntoHayashi,
    FloatBits, FloatSource, StringMap, StringSourceView, lemma_map_of_distinct_pairs,
};
use crate::error::{error_text, ErrorView};
use crate::bridge::error_payload_text;
use crate::text::{
    decimal_digits, decimal_text, digit_char, json_escaped, json_unescaped,
    lemma_json_unescaped_escaped,
};
use crate::bridge::{return_kind, ReturnKind, ReturnShape, TypeShape};
use crate::arrow_column::{column_values, table_lookup, ColumnView};
use crate::ffi::{arg_outcome, next_arg};

verus! {

/// Whether a value comes back unchanged from its JSON form: every float in
/// it is finite, and no dictionary in it has entries that read as the marks
/// of an Arrow array, a geometry or a plot.
pub open spec fn json_faithful(v: ValueView) -> bool
    decreases v,
{
    match v {
        ValueView::Float(b) => f64_is_finite(b),
        ValueView::List(items) => forall|i: int|
            0 <= i < items.len() ==> json_faithful(#[trigger] items[i]),
        ValueView::Dict(entries) => {
            &&& marked_value(encode_value(v)->Object_0) is None
            &&& forall|i: int| 0 <= i < entries.len() ==> json_faithful(#[trigger] entries[i].1)
        },
        _ => true,
    }
}

proof fn lemma_marker_keys_differ()
    ensures
        arrow_array_key() != arrow_schema_key(),
        arrow_array_key() != geometry_key(),
        arrow_schema_key() != geometry_key(),
        arrow_array_key() != plot_spec_key(),
        arrow_schema_key() != plot_spec_key(),
        geometry_key() != plot_spec_key(),
        arrow_array_key() != plot_format_key(),
        arrow_schema_key() != plot_format_key(),
        geometry_key() != plot_format_key(),
        plot_spec_key() != plot_format_key(),
{
    reveal_strlit("__arrow_array_ptr__");
    reveal_strlit("__arrow_schema_ptr__");
    reveal_strlit("__geometry_wkt__");
    reveal_strlit("__plot_spec__");
    reveal_strlit("__plot_format__");
    assert(arrow_array_key()[8] != arrow_schema_key()[8]);
    assert(arrow_array_key()[2] != geometry_key()[2]);
    assert(arrow_schema_key()[2] != geometry_key()[2]);
    assert(arrow_array_key()[2] != plot_spec_key()[2]);
    assert(arrow_schema_key()[2] != plot_spec_key()[2]);
    assert(geometry_key()[2] != plot_spec_key()[2]);
    assert(arrow_array_key()[2] != plot_format_key()[2]);
    assert(arrow_schema_key()[2] != plot_format_key()[2]);
    assert(geometry_key()[2] != plot_format_key()[2]);
    assert(plot_spec_key()[7] != plot_format_key()[7]);
}

/// What a plugin writes as JSON (`to_serde`) is read back (`from_serde`) as
/// the same value, for every value whose floats are finite and whose
/// dictionaries do not carry the marks of Arrow arrays, geometries or plots.
pub proof fn lemma_json_round_trip(v: ValueView)
    requires
        json_faithful(v),
    ensures
        decode_json(encode_value(v)) == v,
    decreases v,
{
    lemma_marker_keys_differ();
    reveal_with_fuel(member_lookup, 3);
    match v {
        ValueView::Arrow(a, s) => {
            let members = encode_value(v)->Object_0;
            assert(members.drop_first() =~= seq![members[1]]);
            assert(seq![members[1]].drop_first().len() == 0);
            assert(member_lookup(members, arrow_array_key()) == Some(members[0].1));
            assert(member_lookup(members, arrow_schema_key()) == Some(members[1].1));
        },
        ValueView::Geometry(w) => {
            let members = encode_value(v)->Object_0;
            assert(members.drop_first().len() == 0);
            assert(member_lookup(members, arrow_array_key()) is None);
            assert(member_lookup(members, geometry_key()) == Some(members[0].1));
        },
        ValueView::Plot { spec, format } => {
            let members = encode_value(v)->Object_0;
            assert(members.drop_first() =~= seq![members[1]]);
            assert(seq![members[1]].drop_first().len() == 0);
            assert(member_lookup(members, arrow_array_key()) is None);
            assert(member_lookup(members, geometry_key()) is None);
            assert(member_lookup(members, plot_spec_key()) == Some(members[0].1));
            assert(member_lookup(members, plot_format_key()) == Some(members[1].1));
        },
        ValueView::List(items) => {
            assert(forall|i: int| 0 <= i < items.len() ==> #[trigger] json_faithful(items[i]));
            let back = decode_json(encode_value(v))->List_0;
            assert forall|i: int| 0 <= i < items.len() implies #[trigger] back[i] == items[i] by {
                assert(json_faithful(items[i]));
                lemma_json_round_trip(items[i]);
            }
            assert(back =~= items);
        },
        ValueView::Dict(entries) => {
            assert(forall|i: int| 0 <= i < entries.len() ==> #[trigger] json_faithful(entries[i].1));
            let back = decode_json(encode_value(v))->Dict_0;
            assert forall|i: int| 0 <= i < entries.len() implies #[trigger] back[i] == entries[i] by {
                assert(json_faithful(entries[i].1));
                lemma_json_round_trip(entries[i].1);
            }
            assert(back =~= entries);
        },
        _ => {},
    }
}

/// Writing a value as JSON keeps every key of an object unique: a
/// dictionary whose keys differ becomes an object whose keys differ, and the
/// marked objects use distinct keys.
pub proof fn lemma_encode_keeps_keys_distinct(v: ValueView)
    requires
        value_wf(v),
    ensures
        json_wf(encode_value(v)),
    decreases v,
{
    lemma_marker_keys_differ();
    match v {
        ValueView::List(items) => {
            let out = encode_value(v)->Array_0;
            assert forall|i: int| 0 <= i < out.len() implies json_wf(#[trigger] out[i]) by {
                assert(value_wf(items[i]));
                assert(out[i] == encode_value(items[i]));
                lemma_encode_keeps_keys_distinct(items[i]);
            }
            assert(encode_value(v) == JsonView::Array(out));
            assert(json_wf(JsonView::Array(out)));
        },
        ValueView::Dict(entries) => {
            let out = encode_value(v)->Object_0;
            assert forall|i: int| 0 <= i < out.len() implies json_wf(#[trigger] out[i].1) by {
                assert(value_wf(entries[i].1));
                lemma_encode_keeps_keys_distinct(entries[i].1);
            }
            assert(keys_distinct(out)) by {
                assert forall|i: int, j: int| 0 <= i < j < out.len() implies #[trigger] out[i].0
                    != #[trigger] out[j].0 by {
                    assert(out[i].0 == entries[i].0 && out[j].0 == entries[j].0);
                }
            }
        },
        ValueView::Arrow(_, _) | ValueView::Geometry(_) | ValueView::Plot { .. } => {
            let out = encode_value(v)->Object_0;
            assert forall|i: int| 0 <= i < out.len() implies json_wf(#[trigger] out[i].1) by {
                assert(out[i].1 is Number || out[i].1 is String);
            }
        },
        _ => {},
    }
}

/// Whether a conversion outcome, if it is a type error, names the kind of the
/// refused value.
pub open spec fn names_refused_kind<V>(r: Result<V, ErrorView>, v: ValueView) -> bool {
    r matches Err(ErrorView::Type { got, .. }) ==> got == kind_name_of(v)
}

/// A type error raised by a conversion names, as what it got, the type of
/// the value it refused.
pub proof fn lemma_type_errors_name_the_value(v: ValueView)
    ensures
        names_refused_kind(<i64 as FromHayashi>::from_hayashi_spec(v), v),
        names_refused_kind(<i32 as FromHayashi>::from_hayashi_spec(v), v),
        names_refused_kind(<usize as FromHayashi>::from_hayashi_spec(v), v),
        names_refused_kind(<bool as FromHayashi>::from_hayashi_spec(v), v),
        names_refused_kind(<Geometry as FromHayashi>::from_hayashi_spec(v), v),
        names_refused_kind(<Plot as FromHayashi>::from_hayashi_spec(v), v),
        names_refused_kind(<Seed as FromHayashi>::from_hayashi_spec(v), v),
        names_refused_kind(string_source_from(v), v),
        names_refused_kind(float_source_from(v), v),
{
}

/// Whether converting a Rust value into a `HayashiValue` and back gives the
/// value again.
pub open spec fn converts_back<T: FromHayashi + IntoHayashi>(x: T) -> bool {
    T::from_hayashi_spec(x.into_hayashi_spec()) == Ok::<T::V, ErrorView>(x.deep_view())
}

/// An `i64` comes back unchanged from its `HayashiValue`.
pub proof fn lemma_i64_converts_back(x: i64)
    ensures
        converts_back(x),
{
}

/// An `i32` comes back unchanged from its `HayashiValue`.
pub proof fn lemma_i32_converts_back(x: i32)
    ensures
        converts_back(x),
{
}

/// A `usize` that fits in `i64` comes back unchanged from its `HayashiValue`
/// (a larger one becomes a negative integer, which `usize` refuses).
pub proof fn lemma_usize_converts_back(x: usize)
    requires
        x <= i64::MAX,
    ensures
        converts_back(x),
{
}

/// A `bool` comes back unchanged from its `HayashiValue`.
pub proof fn lemma_bool_converts_back(x: bool)
    ensures
        converts_back(x),
{
}

/// A `String` comes back unchanged from its `HayashiValue`.
pub proof fn lemma_string_converts_back(x: String)
    ensures
        string_source_from(x.into_hayashi_spec()) == Ok::<StringSourceView, ErrorView>(
            StringSourceView::Text(x@),
        ),
{
}

/// A float comes back unchanged (by its bits) from its `HayashiValue`.
pub proof fn lemma_float_converts_back(x: FloatBits)
    ensures
        float_source_from(x.into_hayashi_spec()) == Ok::<FloatSource, ErrorView>(
            FloatSource::Bits(x.0),
        ),
{
}

/// Wherever a list is asked for, an Arrow array that the call has read
/// converts exactly as the list of its cells would.
pub proof fn lemma_read_arrow_is_its_list<T: FromHayashi>(
    array_ptr: usize,
    schema_ptr: usize,
    arrays: Seq<(usize, usize, ColumnView)>,
    values: Seq<ValueView>,
)
    requires
        table_lookup(arrays, array_ptr, schema_ptr) matches Some(column) && column_values(column)
            == Ok::<Seq<ValueView>, ErrorView>(values),
    ensures
        Vec::<T>::from_hayashi_with_spec(ValueView::Arrow(array_ptr, schema_ptr), arrays)
            == Vec::<T>::from_hayashi_with_spec(ValueView::List(values), arrays),
{
}

/// A `HayashiValue` converts to itself both ways.
pub proof fn lemma_value_converts_back(x: HayashiValue)
    ensures
        converts_back(x),
{
}

/// A geometry comes back unchanged from its `HayashiValue`.
pub proof fn lemma_geometry_converts_back(x: Geometry)
    ensures
        converts_back(x),
{
}

/// A plot comes back unchanged from its `HayashiValue`.
pub proof fn lemma_plot_converts_back(x: Plot)
    ensures
        converts_back(x),
{
}

/// A seed comes back unchanged from its `HayashiValue`, though it travels
/// as an `i64`.
pub proof fn lemma_seed_converts_back(x: Seed)
    ensures
        converts_back(x),
{
    let n: u64 = x.0;
    assert((n as i64) as u64 == n) by (bit_vector);
}

/// An optional value comes back unchanged unless it is `Some` of a value that
/// is itself written as `nil` (which reads back as `None`).
pub proof fn lemma_option_converts_back<T: FromHayashi + IntoHayashi>(x: Option<T>)
    requires
        x matches Some(y) ==> converts_back(y) && y.into_hayashi_spec() != ValueView::Nil,
    ensures
        converts_back(x),
{
    if let Some(y) = x {
        T::lemma_without_arrays(y.into_hayashi_spec());
    }
}

proof fn lemma_list_from_elements<T: FromHayashi + IntoHayashi>(xs: Seq<T>)
    requires
        forall|i: int| 0 <= i < xs.len() ==> converts_back(#[trigger] xs[i]),
    ensures
        list_from::<T>(Seq::new(xs.len(), |i: int| xs[i].into_hayashi_spec()), Seq::empty()) == Ok::<
            Seq<T::V>,
            ErrorView,
        >(Seq::new(xs.len(), |i: int| xs[i].deep_view())),
    decreases xs.len(),
{
    let values = Seq::new(xs.len(), |i: int| xs[i].into_hayashi_spec());
    if xs.len() > 0 {
        let rest = xs.drop_first();
        assert(forall|i: int| 0 <= i < rest.len() ==> converts_back(#[trigger] rest[i])) by {
            assert forall|i: int| 0 <= i < rest.len() implies converts_back(#[trigger] rest[i]) by {
                assert(rest[i] == xs[i + 1]);
            }
        }
        lemma_list_from_elements(rest);
        assert(values.drop_first() =~= Seq::new(rest.len(), |i: int| rest[i].into_hayashi_spec()));
        assert(converts_back(xs[0]));
        T::lemma_without_arrays(xs[0].into_hayashi_spec());
        assert(seq![xs[0].deep_view()] + Seq::new(rest.len(), |i: int| rest[i].deep_view())
            =~= Seq::new(xs.len(), |i: int| xs[i].deep_view()));
    } else {
        assert(Seq::new(xs.len(), |i: int| xs[i].deep_view()) =~= seq![]);
    }
}

/// A list comes back unchanged from its `HayashiValue` when each of its
/// elements does.
pub proof fn lemma_list_converts_back<T: FromHayashi + IntoHayashi>(xs: Vec<T>)
    requires
        forall|i: int| 0 <= i < xs@.len() ==> converts_back(#[trigger] xs@[i]),
    ensures
        converts_back(xs),
{
    lemma_list_from_elements(xs@);
    assert(xs.deep_view() =~= Seq::new(xs@.len(), |i: int| xs@[i].deep_view()));
}

proof fn lemma_entries_from_elements<V: FromHayashi + IntoHayashi>(es: Seq<(String, V)>)
    requires
        forall|i: int| 0 <= i < es.len() ==> converts_back(#[trigger] es[i].1),
    ensures
        entries_from::<V>(
            Seq::new(es.len(), |i: int| (es[i].0@, es[i].1.into_hayashi_spec())),
            Seq::empty(),
        ) == Ok::<Seq<(Seq<char>, V::V)>, ErrorView>(
            Seq::new(es.len(), |i: int| (es[i].0@, es[i].1.deep_view())),
        ),
    decreases es.len(),
{
    let values = Seq::new(es.len(), |i: int| (es[i].0@, es[i].1.into_hayashi_spec()));
    if es.len() > 0 {
        let rest = es.drop_first();
        assert(forall|i: int| 0 <= i < rest.len() ==> converts_back(#[trigger] rest[i].1)) by {
            assert forall|i: int| 0 <= i < rest.len() implies converts_back(#[trigger] rest[i].1) by {
                assert(rest[i] == es[i + 1]);
            }
        }
        lemma_entries_from_elements(rest);
        assert(values.drop_first() =~= Seq::new(
            rest.len(),
            |i: int| (rest[i].0@, rest[i].1.into_hayashi_spec()),
        ));
        assert(converts_back(es[0].1));
        V::lemma_without_arrays(es[0].1.into_hayashi_spec());
        assert(seq![(es[0].0@, es[0].1.deep_view())] + Seq::new(
            rest.len(),
            |i: int| (rest[i].0@, rest[i].1.deep_view()),
        ) =~= Seq::new(es.len(), |i: int| (es[i].0@, es[i].1.deep_view())));
    } else {
        assert(Seq::new(es.len(), |i: int| (es[i].0@, es[i].1.deep_view())) =~= seq![]);
    }
}

/// A dictionary comes back unchanged from its `HayashiValue` when each of its
/// values does.
pub proof fn lemma_map_converts_back<V: FromHayashi + IntoHayashi>(m: StringMap<V>)
    requires
        keys_distinct(m.deep_view()),
        forall|i: int|
            0 <= i < m.entry_seq().len() ==> converts_back(#[trigger] m.entry_seq()[i].1),
    ensures
        converts_back(m),
{
    lemma_entries_from_elements(m.entry_seq());
    lemma_map_of_distinct_pairs(m.deep_view());
}

/// An argument the host did not send reads as `nil`, so an optional
/// parameter gets `None`.
pub proof fn lemma_missing_optional_arg<T: FromHayashi>(index: usize)
    ensures
        arg_outcome(index, Option::<T>::from_hayashi_spec(next_arg(Seq::<HayashiValue>::empty())))
            == Ok::<Option<T::V>, ErrorView>(None),
{
}

/// An error report is the JSON object `{"__error__": ...}` whose one member
/// is a string literal standing for the error's message.
pub proof fn lemma_error_report_holds_the_message(e: ErrorView)
    ensures
        exists|body: Seq<char>|
            error_payload_text(e) == "{\"__error__\":\""@ + body + "\"}"@
                && #[trigger] json_unescaped(body) == Some(error_text(e)),
{
    let body = json_escaped(error_text(e));
    lemma_json_unescaped_escaped(error_text(e));
    assert(json_unescaped(body) == Some(error_text(e)));
}

// --- Arrow columns, cell by cell ------------------------------------------------

/// The value of each cell of an Arrow column: a null cell is `nil`, a
/// `Float64` cell the float with its bits, an `Int64` cell that integer, a
/// `Boolean` cell that boolean, a `Utf8` cell that text; the values come in
/// the order of the cells, one per cell. A column of another type is refused
/// with a message naming the type.
pub proof fn lemma_column_cells(c: ColumnView)
    ensures
        c matches ColumnView::Boolean(cells) ==> column_values(c) matches Ok(vs) && vs.len()
            == cells.len() && forall|i: int|
            0 <= i < cells.len() ==> #[trigger] vs[i] == match cells[i] {
                Some(b) => ValueView::Bool(b),
                None => ValueView::Nil,
            },
        c matches ColumnView::Int64(cells) ==> column_values(c) matches Ok(vs) && vs.len()
            == cells.len() && forall|i: int|
            0 <= i < cells.len() ==> #[trigger] vs[i] == match cells[i] {
                Some(n) => ValueView::Int(n),
                None => ValueView::Nil,
            },
        c matches ColumnView::Float64(cells) ==> column_values(c) matches Ok(vs) && vs.len()
            == cells.len() && forall|i: int|
            0 <= i < cells.len() ==> #[trigger] vs[i] == match cells[i] {
                Some(b) => ValueView::Float(b),
                None => ValueView::Nil,
            },
        c matches ColumnView::Utf8(cells) ==> column_values(c) matches Ok(vs) && vs.len()
            == cells.len() && forall|i: int|
            0 <= i < cells.len() ==> #[trigger] vs[i] == match cells[i] {
                Some(s) => ValueView::Str(s),
                None => ValueView::Nil,
            },
        c matches ColumnView::Unsupported(t) ==> column_values(c) == Err::<Seq<ValueView>, ErrorView>(
            ErrorView::Custom("unsupported Arrow type for conversion: "@ + t),
        ),
{
}

// --- Objects that mark values --------------------------------------------------

/// Whether a key is one of the keys that mark an Arrow array, a geometry or
/// a plot.
pub open spec fn is_marker_key(k: Seq<char>) -> bool {
    ||| k == "__arrow_array_ptr__"@
    ||| k == "__arrow_schema_ptr__"@
    ||| k == "__geometry_wkt__"@
    ||| k == "__plot_spec__"@
    ||| k == "__plot_format__"@
}

proof fn lemma_member_lookup_found(members: Seq<(Seq<char>, JsonView)>, key: Seq<char>)
    ensures
        member_lookup(members, key) matches Some(v) ==> exists|i: int|
            0 <= i < members.len() && #[trigger] members[i] == (key, v),
        (forall|i: int| 0 <= i < members.len() ==> (#[trigger] members[i]).0 != key)
            ==> member_lookup(members, key) is None,
    decreases members.len(),
{
    if members.len() > 0 {
        let rest = members.drop_first();
        lemma_member_lookup_found(rest, key);
        if members[0].0 != key {
            if let Some(v) = member_lookup(rest, key) {
                let i = choose|i: int| 0 <= i < rest.len() && #[trigger] rest[i] == (key, v);
                assert(members[i + 1] == (key, v));
            }
            if forall|i: int| 0 <= i < members.len() ==> (#[trigger] members[i]).0 != key {
                assert forall|i: int| 0 <= i < rest.len() implies (#[trigger] rest[i]).0 != key by {
                    assert(members[i + 1] == rest[i]);
                }
            }
        } else {
            assert(members[0] == (key, members[0].1));
        }
    }
}

/// An object is read as an Arrow array only when it has a member keyed
/// `__arrow_array_ptr__` and one keyed `__arrow_schema_ptr__`, whose values
/// are the two addresses as non-negative integers. An object none of whose
/// keys marks a value is read as the dictionary of its members, key by key
/// and in order.
pub proof fn lemma_object_decoding(members: Seq<(Seq<char>, JsonView)>)
    ensures
        decode_json(JsonView::Object(members)) matches ValueView::Arrow(a, s) ==> (exists|i: int|
            0 <= i < members.len() && (#[trigger] members[i]).0 == "__arrow_array_ptr__"@
                && (members[i].1 matches JsonView::Number(JsonNumber::PosInt(x)) && x as usize
                == a)) && (exists|j: int|
            0 <= j < members.len() && (#[trigger] members[j]).0 == "__arrow_schema_ptr__"@
                && (members[j].1 matches JsonView::Number(JsonNumber::PosInt(y)) && y as usize
                == s)),
        (forall|i: int| 0 <= i < members.len() ==> !is_marker_key(#[trigger] members[i].0))
            ==> decode_json(JsonView::Object(members)) == ValueView::Dict(
            Seq::new(members.len(), |i: int| (members[i].0, decode_json(members[i].1))),
        ),
{
    lemma_member_lookup_found(members, arrow_array_key());
    lemma_member_lookup_found(members, arrow_schema_key());
    lemma_member_lookup_found(members, geometry_key());
    lemma_member_lookup_found(members, plot_spec_key());
    lemma_member_lookup_found(members, plot_format_key());
    if let ValueView::Arrow(a, s) = decode_json(JsonView::Object(members)) {
        let av = member_lookup(members, arrow_array_key());
        let sv = member_lookup(members, arrow_schema_key());
        if let (
            Some(JsonView::Number(JsonNumber::PosInt(x))),
            Some(JsonView::Number(JsonNumber::PosInt(y))),
        ) = (av, sv) {
            let i = choose|i: int| 0 <= i < members.len() && #[trigger] members[i] == (
                arrow_array_key(),
                JsonView::Number(JsonNumber::PosInt(x)),
            );
            let j = choose|j: int| 0 <= j < members.len() && #[trigger] members[j] == (
                arrow_schema_key(),
                JsonView::Number(JsonNumber::PosInt(y)),
            );
            assert(x as usize == a);
            assert(y as usize == s);
        }
    }
    if forall|i: int| 0 <= i < members.len() ==> !is_marker_key(#[trigger] members[i].0) {
        assert(marked_value(members) is None);
        assert(decode_json(JsonView::Object(members))->Dict_0 =~= Seq::new(
            members.len(),
            |i: int| (members[i].0, decode_json(members[i].1)),
        ));
    }
}

// --- Lists, element by element -------------------------------------------------

proof fn lemma_list_from_elements_with<T: FromHayashi>(
    items: Seq<ValueView>,
    arrays: Seq<(usize, usize, ColumnView)>,
)
    ensures
        match list_from::<T>(items, arrays) {
            Ok(xs) => xs.len() == items.len() && forall|i: int|
                0 <= i < items.len() ==> #[trigger] T::from_hayashi_with_spec(items[i], arrays)
                    == Ok::<T::V, ErrorView>(xs[i]),
            Err(e) => exists|k: int|
                0 <= k < items.len() && #[trigger] T::from_hayashi_with_spec(items[k], arrays)
                    == Err::<T::V, ErrorView>(e) && forall|j: int|
                    0 <= j < k ==> #[trigger] T::from_hayashi_with_spec(items[j], arrays) is Ok,
        },
    decreases items.len(),
{
    if items.len() > 0 {
        let rest = items.drop_first();
        lemma_list_from_elements_with::<T>(rest, arrays);
        match T::from_hayashi_with_spec(items[0], arrays) {
            Err(e) => {
                assert(T::from_hayashi_with_spec(items[0], arrays) == Err::<T::V, ErrorView>(e));
            },
            Ok(x) => match list_from::<T>(rest, arrays) {
                Ok(xs) => {
                    let all = seq![x] + xs;
                    assert forall|i: int| 0 <= i < items.len() implies #[trigger] T::from_hayashi_with_spec(
                        items[i],
                        arrays,
                    ) == Ok::<T::V, ErrorView>(all[i]) by {
                        if i > 0 {
                            assert(items[i] == rest[i - 1]);
                        }
                    }
                },
                Err(e) => {
                    let k = choose|k: int|
                        0 <= k < rest.len() && #[trigger] T::from_hayashi_with_spec(rest[k], arrays)
                            == Err::<T::V, ErrorView>(e) && forall|j: int|
                            0 <= j < k ==> #[trigger] T::from_hayashi_with_spec(rest[j], arrays) is Ok;
                    assert(items[k + 1] == rest[k]);
                    assert forall|j: int| 0 <= j < k + 1 implies #[trigger] T::from_hayashi_with_spec(
                        items[j],
                        arrays,
                    ) is Ok by {
                        if j > 0 {
                            assert(items[j] == rest[j - 1]);
                        }
                    }
                },
            },
        }
    }
}

/// A list converts element by element with the same table of read arrays:
/// it gives one result per element, each the element's own conversion, or
/// the error of the first element that does not convert; it converts
/// whenever each element does.
pub proof fn lemma_list_converts_element_by_element<T: FromHayashi>(
    items: Seq<ValueView>,
    arrays: Seq<(usize, usize, ColumnView)>,
)
    ensures
        match Vec::<T>::from_hayashi_with_spec(ValueView::List(items), arrays) {
            Ok(xs) => xs.len() == items.len() && forall|i: int|
                0 <= i < items.len() ==> #[trigger] T::from_hayashi_with_spec(items[i], arrays)
                    == Ok::<T::V, ErrorView>(xs[i]),
            Err(e) => exists|k: int|
                0 <= k < items.len() && #[trigger] T::from_hayashi_with_spec(items[k], arrays)
                    == Err::<T::V, ErrorView>(e) && forall|j: int|
                    0 <= j < k ==> #[trigger] T::from_hayashi_with_spec(items[j], arrays) is Ok,
        },
        (forall|i: int| 0 <= i < items.len() ==> #[trigger] T::from_hayashi_with_spec(items[i], arrays) is Ok)
            ==> Vec::<T>::from_hayashi_with_spec(ValueView::List(items), arrays) is Ok,
{
    lemma_list_from_elements_with::<T>(items, arrays);
}

// --- Return types --------------------------------------------------------------

/// A return type is handled as a `Result` exactly when it is a path whose
/// last segment is the name `Result`; `()` and no return type give `nil`;
/// every other type (a path ending in `String`, `Option`, `Vec`, ...) is
/// serialized as a value.
pub proof fn lemma_return_kinds(ty: TypeShape)
    ensures
        return_kind(ReturnShape::Default) == ReturnKind::Unit,
        ty matches TypeShape::Path { last_segment: Some(name) } ==> return_kind(
            ReturnShape::Type(ty),
        ) == if name@ == "Result"@ {
            ReturnKind::Result
        } else {
            ReturnKind::Value
        },
        ty matches TypeShape::Path { last_segment: None } ==> return_kind(ReturnShape::Type(ty))
            == ReturnKind::Value,
        ty matches TypeShape::Tuple { arity } ==> return_kind(ReturnShape::Type(ty)) == if arity
            == 0 {
            ReturnKind::Unit
        } else {
            ReturnKind::Value
        },
        ty matches TypeShape::Other ==> return_kind(ReturnShape::Type(ty)) == ReturnKind::Value,
{
}

// --- Integers as text ----------------------------------------------------------

/// The number that a digit character stands for.
pub open spec fn digit_value(c: char) -> int {
    (c as int) - ('0' as int)
}

/// Whether a character is an ASCII decimal digit.
pub open spec fn is_digit(c: char) -> bool {
    '0' <= c <= '9'
}

/// The number that a string of decimal digits stands for.
pub open spec fn digits_number(s: Seq<char>) -> int
    decreases s.len(),
{
    if s.len() == 0 {
        0
    } else {
        digits_number(s.drop_last()) * 10 + digit_value(s.last())
    }
}

/// Whether `t` is the decimal text of `i` as `Display` writes it: a `-`
/// before a negative number and nothing before another, then digits with no
/// leading zero that stand for the magnitude.
pub open spec fn is_decimal_text_of(t: Seq<char>, i: int) -> bool {
    let digits = if i < 0 {
        t.drop_first()
    } else {
        t
    };
    &&& (i < 0 ==> t.len() > 0 && t[0] == '-')
    &&& digits.len() > 0
    &&& forall|k: int| 0 <= k < digits.len() ==> is_digit(#[trigger] digits[k])
    &&& (digits.len() > 1 ==> digits[0] != '0')
    &&& digits_number(digits) == if i < 0 {
        -i
    } else {
        i
    }
}

proof fn lemma_digit_char(d: nat)
    requires
        d < 10,
    ensures
        is_digit(digit_char(d)),
        digit_value(digit_char(d)) == d,
        d > 0 ==> digit_char(d) != '0',
{
}

proof fn lemma_decimal_digits(n: nat)
    ensures
        decimal_digits(n).len() > 0,
        forall|k: int| 0 <= k < decimal_digits(n).len() ==> is_digit(#[trigger] decimal_digits(n)[k]),
        decimal_digits(n).len() > 1 ==> decimal_digits(n)[0] != '0',
        digits_number(decimal_digits(n)) == n,
        n < 10 <==> decimal_digits(n).len() == 1,
    decreases n,
{
    lemma_digit_char(n % 10);
    if n < 10 {
        let d = decimal_digits(n);
        assert(d.drop_last() =~= Seq::<char>::empty());
        assert(digits_number(d.drop_last()) == 0);
        assert(d.last() == digit_char(n));
        assert(digits_number(d) == digits_number(d.drop_last()) * 10 + digit_value(d.last()));
    } else {
        lemma_decimal_digits(n / 10);
        let d = decimal_digits(n);
        assert(d.drop_last() =~= decimal_digits(n / 10));
        assert(d[0] == decimal_digits(n / 10)[0]);
        assert(n == (n / 10) * 10 + n % 10);
        assert(d.last() == digit_char(n % 10));
        assert(digits_number(d) == digits_number(d.drop_last()) * 10 + digit_value(d.last()));
        assert(forall|k: int| 0 <= k < d.len() - 1 ==> d[k] == decimal_digits(n / 10)[k]);
        if n / 10 < 10 {
            assert(decimal_digits(n / 10) == seq![digit_char(n / 10)]);
        }
    }
}

/// The text of every `i64` is its decimal text: `-` and the digits of the
/// magnitude for a negative number, the digits alone (no sign, no leading
/// zero) otherwise.
pub proof fn lemma_decimal_text(i: int)
    ensures
        is_decimal_text_of(decimal_text(i), i),
{
    if i < 0 {
        lemma_decimal_digits((-i) as nat);
        assert(decimal_text(i).drop_first() =~= decimal_digits((-i) as nat));
    } else {
        lemma_decimal_digits(i as nat);
    }
}

/// An integer converted to a string is its decimal text, as `i64::to_string`
/// writes it.
pub proof fn lemma_int_to_string(i: i64)
    ensures
        string_source_from(ValueView::Int(i)) == Ok::<StringSourceView, ErrorView>(
            StringSourceView::Text(decimal_text(i as int)),
        ),
        string_source_from(ValueView::Int(i)) matches Ok(StringSourceView::Text(t))
            && is_decimal_text_of(t, i as int),
{
    lemma_decimal_text(i as int);
}

} // verus!
