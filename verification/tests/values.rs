use hayashi_plugin_sdk::json::{json_value_from, parse_json};
use hayashi_plugin_sdk::{Geometry, HayashiError, HayashiValue, JsonNumber, JsonValue, Plot};

fn s(text: &str) -> String {
    text.to_string()
}

#[test]
fn kind_names_of_every_variant() {
    assert_eq!(HayashiValue::Float(1.5f64.to_bits()).kind_name(), "float");
    assert_eq!(HayashiValue::Int(3).kind_name(), "int");
    assert_eq!(HayashiValue::Bool(true).kind_name(), "bool");
    assert_eq!(HayashiValue::Str(s("x")).kind_name(), "string");
    assert_eq!(HayashiValue::List(vec![]).kind_name(), "list");
    assert_eq!(HayashiValue::Dict(vec![]).kind_name(), "dict");
    assert_eq!(HayashiValue::Arrow(1, 2).kind_name(), "arrow_array");
    assert_eq!(HayashiValue::Geometry(s("POINT (0 0)")).kind_name(), "geometry");
    assert_eq!(
        HayashiValue::Plot { spec: s("{}"), format: s("vega-lite") }.kind_name(),
        "plot"
    );
    assert_eq!(HayashiValue::Nil.kind_name(), "nil");
}

#[test]
fn error_messages() {
    assert_eq!(HayashiError::Parse(s("bad")).to_string(), "parse error: bad");
    assert_eq!(
        HayashiError::Type { expected: s("int"), got: s("string") }.to_string(),
        "type error: expected int, got string"
    );
    assert_eq!(
        HayashiError::Arg { index: 12, message: s("oops") }.to_string(),
        "argument 12: oops"
    );
    assert_eq!(HayashiError::Function(s("boom")).to_string(), "function error: boom");
    assert_eq!(HayashiError::Custom(s("plain")).to_string(), "plain");
}

#[test]
fn geometry_keeps_its_wkt() {
    let g = Geometry::from_wkt(s("POLYGON ((0 0, 1 0, 1 1, 0 0))"));
    assert_eq!(g.wkt(), "POLYGON ((0 0, 1 0, 1 1, 0 0))");
    assert_eq!(g, Geometry(s("POLYGON ((0 0, 1 0, 1 1, 0 0))")));
}

#[test]
fn plot_constructors_name_their_format() {
    let p = Plot::vega_lite(s("{\"mark\":\"bar\"}"));
    assert_eq!(p.spec, "{\"mark\":\"bar\"}");
    assert_eq!(p.format, "vega-lite");
    assert_eq!(Plot::plotters_svg(s("<svg/>")).format, "plotters-svg");
    assert_eq!(Plot::plotters_svg(s("<svg/>")).spec, "<svg/>");
    assert_eq!(Plot::plotters_png_b64(s("iVBOR")).format, "plotters-png-b64");
    assert_eq!(Plot::plotters_png_b64(s("iVBOR")).spec, "iVBOR");
}

#[test]
fn json_scalars_read_as_values() {
    let doc = parse_json("[null, true, 7, -7, 2.5, \"hi\"]").unwrap();
    let JsonValue::Array(items) = &doc else { panic!("not an array") };
    let values: Vec<HayashiValue> = items.iter().map(HayashiValue::from_json).collect();
    assert_eq!(
        values,
        vec![
            HayashiValue::Nil,
            HayashiValue::Bool(true),
            HayashiValue::Int(7),
            HayashiValue::Int(-7),
            HayashiValue::Float(2.5f64.to_bits()),
            HayashiValue::Str(s("hi")),
        ]
    );
}

#[test]
fn integer_too_large_for_i64_reads_as_float() {
    let doc = parse_json("18446744073709551615").unwrap();
    assert_eq!(doc, JsonValue::Number(JsonNumber::PosInt(u64::MAX)));
    assert_eq!(
        HayashiValue::from_json(&doc),
        HayashiValue::Float((u64::MAX as f64).to_bits())
    );
}

#[test]
fn marked_objects_read_as_marked_values() {
    let arrow = parse_json("{\"__arrow_array_ptr__\": 16, \"__arrow_schema_ptr__\": 32}").unwrap();
    assert_eq!(HayashiValue::from_json(&arrow), HayashiValue::Arrow(16, 32));
    let geometry = parse_json("{\"__geometry_wkt__\": \"POINT (1 2)\"}").unwrap();
    assert_eq!(HayashiValue::from_json(&geometry), HayashiValue::Geometry(s("POINT (1 2)")));
    let plot = parse_json("{\"__plot_spec__\": \"{}\", \"__plot_format__\": \"vega-lite\"}").unwrap();
    assert_eq!(
        HayashiValue::from_json(&plot),
        HayashiValue::Plot { spec: s("{}"), format: s("vega-lite") }
    );
}

#[test]
fn incomplete_marks_read_as_dictionaries() {
    let half_arrow = parse_json("{\"__arrow_array_ptr__\": 16}").unwrap();
    assert_eq!(
        HayashiValue::from_json(&half_arrow),
        HayashiValue::Dict(vec![(s("__arrow_array_ptr__"), HayashiValue::Int(16))])
    );
    let negative = parse_json("{\"__arrow_array_ptr__\": -1, \"__arrow_schema_ptr__\": 2}").unwrap();
    assert_eq!(HayashiValue::from_json(&negative).kind_name(), "dict");
    let numeric_wkt = parse_json("{\"__geometry_wkt__\": 3}").unwrap();
    assert_eq!(
        HayashiValue::from_json(&numeric_wkt),
        HayashiValue::Dict(vec![(s("__geometry_wkt__"), HayashiValue::Int(3))])
    );
}

#[test]
fn nested_documents_read_recursively() {
    let doc = parse_json("{\"a\": [1, {\"b\": null}]}").unwrap();
    assert_eq!(
        HayashiValue::from_json(&doc),
        HayashiValue::Dict(vec![(
            s("a"),
            HayashiValue::List(vec![
                HayashiValue::Int(1),
                HayashiValue::Dict(vec![(s("b"), HayashiValue::Nil)]),
            ]),
        )])
    );
}

#[test]
fn serde_values_read_node_by_node() {
    let text = "[null, false, 5, -5, 9223372036854775808, 0.5, \"s\", [1], {\"k\": {\"__geometry_wkt__\": \"P\"}}]";
    let jval: serde_json::Value = serde_json::from_str(text).unwrap();
    assert_eq!(
        HayashiValue::from_serde(&jval).unwrap(),
        HayashiValue::List(vec![
            HayashiValue::Nil,
            HayashiValue::Bool(false),
            HayashiValue::Int(5),
            HayashiValue::Int(-5),
            HayashiValue::Float(9223372036854775808.0f64.to_bits()),
            HayashiValue::Float(0.5f64.to_bits()),
            HayashiValue::Str(s("s")),
            HayashiValue::List(vec![HayashiValue::Int(1)]),
            HayashiValue::Dict(vec![(s("k"), HayashiValue::Geometry(s("P")))]),
        ])
    );
    assert_eq!(HayashiValue::from_json(&parse_json(text).unwrap()), HayashiValue::from_serde(&jval).unwrap());
}

#[test]
fn values_are_written_as_json_documents() {
    assert_eq!(HayashiValue::Nil.to_serde(), JsonValue::Null);
    assert_eq!(HayashiValue::Bool(false).to_serde(), JsonValue::Bool(false));
    assert_eq!(HayashiValue::Int(5).to_serde(), JsonValue::Number(JsonNumber::PosInt(5)));
    assert_eq!(HayashiValue::Int(-5).to_serde(), JsonValue::Number(JsonNumber::NegInt(-5)));
    assert_eq!(
        HayashiValue::Float(0.25f64.to_bits()).to_serde(),
        JsonValue::Number(JsonNumber::Float(0.25f64.to_bits()))
    );
    assert_eq!(HayashiValue::Float(f64::NAN.to_bits()).to_serde(), JsonValue::Null);
    assert_eq!(HayashiValue::Float(f64::INFINITY.to_bits()).to_serde(), JsonValue::Null);
    assert_eq!(HayashiValue::Str(s("t")).to_serde(), JsonValue::String(s("t")));
    assert_eq!(
        HayashiValue::Arrow(3, 4).to_serde(),
        JsonValue::Object(vec![
            (s("__arrow_array_ptr__"), JsonValue::Number(JsonNumber::PosInt(3))),
            (s("__arrow_schema_ptr__"), JsonValue::Number(JsonNumber::PosInt(4))),
        ])
    );
    assert_eq!(
        HayashiValue::Geometry(s("POINT (0 0)")).to_serde(),
        JsonValue::Object(vec![(s("__geometry_wkt__"), JsonValue::String(s("POINT (0 0)")))])
    );
    assert_eq!(
        HayashiValue::Plot { spec: s("<svg/>"), format: s("plotters-svg") }.to_serde(),
        JsonValue::Object(vec![
            (s("__plot_spec__"), JsonValue::String(s("<svg/>"))),
            (s("__plot_format__"), JsonValue::String(s("plotters-svg"))),
        ])
    );
    assert_eq!(
        HayashiValue::List(vec![HayashiValue::Int(1), HayashiValue::Nil]).to_serde(),
        JsonValue::Array(vec![JsonValue::Number(JsonNumber::PosInt(1)), JsonValue::Null])
    );
}

#[test]
fn json_round_trip_of_faithful_values() {
    let values = vec![
        HayashiValue::Nil,
        HayashiValue::Int(i64::MIN),
        HayashiValue::Int(i64::MAX),
        HayashiValue::Float((-3.75f64).to_bits()),
        HayashiValue::Arrow(usize::MAX, 0),
        HayashiValue::Geometry(s("LINESTRING (0 0, 1 1)")),
        HayashiValue::Plot { spec: s("a"), format: s("b") },
        HayashiValue::Dict(vec![
            (s("x"), HayashiValue::List(vec![HayashiValue::Bool(true)])),
            (s("y"), HayashiValue::Str(s("z"))),
        ]),
    ];
    for v in values {
        assert_eq!(HayashiValue::from_json(&v.to_serde()), v);
    }
}

#[test]
fn json_round_trip_fails_for_marked_dictionaries_and_nan() {
    let marked = HayashiValue::Dict(vec![(s("__geometry_wkt__"), HayashiValue::Str(s("P")))]);
    assert_eq!(HayashiValue::from_json(&marked.to_serde()), HayashiValue::Geometry(s("P")));
    let nan = HayashiValue::Float(f64::NAN.to_bits());
    assert_eq!(HayashiValue::from_json(&nan.to_serde()), HayashiValue::Nil);
}

#[test]
fn json_parse_errors_carry_the_parser_message() {
    let text = "[1, 2";
    let expected = serde_json::from_str::<serde_json::Value>(text).unwrap_err().to_string();
    assert_eq!(parse_json(text), Err(expected));
    assert!(parse_json("{\"a\":1}").is_ok());
}

#[test]
fn serde_numbers_keep_their_representation() {
    let cases = [
        ("0", JsonValue::Number(JsonNumber::PosInt(0))),
        ("-3", JsonValue::Number(JsonNumber::NegInt(-3))),
        ("1.25", JsonValue::Number(JsonNumber::Float(1.25f64.to_bits()))),
        ("-9223372036854775808", JsonValue::Number(JsonNumber::NegInt(i64::MIN))),
        ("\"a\\nb\"", JsonValue::String(s("a\nb"))),
        ("{}", JsonValue::Object(vec![])),
        ("[[]]", JsonValue::Array(vec![JsonValue::Array(vec![])])),
    ];
    for (text, expected) in cases {
        let v: serde_json::Value = serde_json::from_str(text).unwrap();
        assert_eq!(json_value_from(&v), expected, "{text}");
        assert_eq!(parse_json(text).unwrap(), expected, "{text}");
    }
}
