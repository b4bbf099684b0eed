use hayashi_plugin_sdk::arrow_column::arrow_to_hayashi_values;
use hayashi_plugin_sdk::bridge::{
    parameter_names, ParamShape, PatternShape, c_string_output, classify_return, error_payload, finish_call, impl_name, is_result_type,
    is_unit_type, ReturnKind, ReturnShape, TypeShape,
};
use hayashi_plugin_sdk::ffi::{args_from_json, arrow_pointers, function_outcome};
use hayashi_plugin_sdk::json::parse_json;
use hayashi_plugin_sdk::{extract_arg, parse_args, ArrowColumn, HayashiError, HayashiValue};

fn s(text: &str) -> String {
    text.to_string()
}

#[test]
fn parse_args_reads_every_argument() {
    let args = parse_args("[1, \"two\", [3.5], {\"__geometry_wkt__\": \"POINT (0 0)\"}, null]").unwrap();
    assert_eq!(
        args,
        vec![
            HayashiValue::Int(1),
            HayashiValue::Str(s("two")),
            HayashiValue::List(vec![HayashiValue::Float(3.5f64.to_bits())]),
            HayashiValue::Geometry(s("POINT (0 0)")),
            HayashiValue::Nil,
        ]
    );
    assert_eq!(parse_args("[]"), Ok(vec![]));
}

#[test]
fn parse_args_requires_an_array() {
    assert_eq!(
        parse_args("{\"a\": 1}"),
        Err(HayashiError::Parse(s("expected a JSON array of arguments")))
    );
    assert_eq!(
        parse_args("42"),
        Err(HayashiError::Parse(s("expected a JSON array of arguments")))
    );
}

#[test]
fn parse_args_reports_invalid_json() {
    let text = "[1, ";
    let message = serde_json::from_str::<serde_json::Value>(text).unwrap_err().to_string();
    assert_eq!(parse_args(text), Err(HayashiError::Parse(message)));
}

#[test]
fn args_from_a_parsed_document() {
    let doc = parse_json("[true, -1]").unwrap();
    assert_eq!(args_from_json(&doc), Ok(vec![HayashiValue::Bool(true), HayashiValue::Int(-1)]));
    let not_array = parse_json("\"x\"").unwrap();
    assert_eq!(
        args_from_json(&not_array),
        Err(HayashiError::Parse(s("expected a JSON array of arguments")))
    );
}

#[test]
fn extract_arg_takes_arguments_in_order() {
    let mut args = parse_args("[3, \"x\"]").unwrap();
    assert_eq!(extract_arg::<i64>(&mut args, 0), Ok(3));
    assert_eq!(args, vec![HayashiValue::Str(s("x"))]);
    assert_eq!(
        extract_arg::<i64>(&mut args, 1),
        Err(HayashiError::Arg { index: 1, message: s("type error: expected int, got string") })
    );
    assert!(args.is_empty());
}

#[test]
fn missing_arguments_read_as_nil() {
    let mut args: Vec<HayashiValue> = vec![];
    assert_eq!(extract_arg::<Option<i64>>(&mut args, 0), Ok(None));
    assert_eq!(extract_arg::<HayashiValue>(&mut args, 1), Ok(HayashiValue::Nil));
    assert_eq!(
        extract_arg::<bool>(&mut args, 2),
        Err(HayashiError::Arg { index: 2, message: s("type error: expected bool, got nil") })
    );
}

#[test]
fn arrow_columns_become_values() {
    assert_eq!(
        arrow_to_hayashi_values(&ArrowColumn::Float64(vec![Some(1.5f64.to_bits()), None])),
        Ok(vec![HayashiValue::Float(1.5f64.to_bits()), HayashiValue::Nil])
    );
    assert_eq!(
        arrow_to_hayashi_values(&ArrowColumn::Int64(vec![None, Some(-2)])),
        Ok(vec![HayashiValue::Nil, HayashiValue::Int(-2)])
    );
    assert_eq!(
        arrow_to_hayashi_values(&ArrowColumn::Boolean(vec![Some(true)])),
        Ok(vec![HayashiValue::Bool(true)])
    );
    assert_eq!(
        arrow_to_hayashi_values(&ArrowColumn::Utf8(vec![Some(s("a")), None])),
        Ok(vec![HayashiValue::Str(s("a")), HayashiValue::Nil])
    );
    assert_eq!(arrow_to_hayashi_values(&ArrowColumn::Int64(vec![])), Ok(vec![]));
    assert_eq!(
        arrow_to_hayashi_values(&ArrowColumn::Unsupported(s("Date32"))),
        Err(HayashiError::Custom(s("unsupported Arrow type for conversion: Date32")))
    );
}

#[test]
fn return_types_are_classified() {
    let result = TypeShape::Path { last_segment: Some(s("Result")) };
    let other_path = TypeShape::Path { last_segment: Some(s("Vec")) };
    let unit = TypeShape::Tuple { arity: 0 };
    let pair = TypeShape::Tuple { arity: 2 };
    assert!(is_result_type(&result));
    assert!(!is_result_type(&other_path));
    assert!(!is_result_type(&TypeShape::Path { last_segment: None }));
    assert!(is_unit_type(&unit));
    assert!(!is_unit_type(&pair));
    assert_eq!(classify_return(&ReturnShape::Default), ReturnKind::Unit);
    assert_eq!(classify_return(&ReturnShape::Type(result)), ReturnKind::Result);
    assert_eq!(classify_return(&ReturnShape::Type(unit)), ReturnKind::Unit);
    assert_eq!(classify_return(&ReturnShape::Type(other_path)), ReturnKind::Value);
    assert_eq!(classify_return(&ReturnShape::Type(TypeShape::Other)), ReturnKind::Value);
}

#[test]
fn plugin_functions_are_renamed() {
    assert_eq!(impl_name("sharpe_ratio"), "__hayashi_impl_sharpe_ratio");
}

#[test]
fn call_outputs() {
    assert_eq!(finish_call(Some(Ok(s("3.5")))), "3.5");
    assert_eq!(
        finish_call(Some(Err(HayashiError::Function(s("division by zero"))))),
        "{\"__error__\":\"function error: division by zero\"}"
    );
    assert_eq!(finish_call(None), "{\"__error__\":\"plugin panicked\"}");
    assert_eq!(
        error_payload(&HayashiError::Parse(s("x"))),
        "{\"__error__\":\"parse error: x\"}"
    );
}

#[test]
fn error_reports_are_json() {
    let message = "a\"b\\c\nd\u{1}e";
    let text = finish_call(Some(Err(HayashiError::Function(s(message)))));
    assert_eq!(text, "{\"__error__\":\"function error: a\\\"b\\\\c\\nd\\u0001e\"}");
    let parsed: serde_json::Value = serde_json::from_str(&text).unwrap();
    assert_eq!(parsed["__error__"], serde_json::Value::String(format!("function error: {message}")));
    let report = error_payload(&HayashiError::Custom(s("tab\there \u{8}\u{c}\r")));
    assert_eq!(report, "{\"__error__\":\"tab\\there \\b\\f\\r\"}");
    let parsed: serde_json::Value = serde_json::from_str(&report).unwrap();
    assert_eq!(parsed["__error__"], serde_json::Value::String(s("tab\there \u{8}\u{c}\r")));
}

#[test]
fn outputs_with_nul_cannot_cross_the_c_abi() {
    assert_eq!(c_string_output(s("[1]")), "[1]");
    assert_eq!(c_string_output(s("")), "");
    assert_eq!(
        c_string_output(s("a\0b")),
        "{\"__error__\":\"plugin returned invalid UTF-8\"}"
    );
}

#[test]
fn parameter_names_skip_receivers() {
    let params = vec![
        ParamShape::Receiver,
        ParamShape::Typed(PatternShape::Ident(s("returns"))),
        ParamShape::Typed(PatternShape::Ident(s("rf"))),
    ];
    assert_eq!(parameter_names(&params), Ok(vec![s("returns"), s("rf")]));
    let bad = vec![
        ParamShape::Typed(PatternShape::Ident(s("a"))),
        ParamShape::Typed(PatternShape::Other),
    ];
    assert_eq!(
        parameter_names(&bad),
        Err(s("#[hayashi_fn]: only simple identifier patterns are supported as parameter names"))
    );
    assert_eq!(parameter_names(&vec![]), Ok(vec![]));
}

#[test]
fn arrow_arguments_give_their_addresses() {
    assert_eq!(arrow_pointers(&HayashiValue::Arrow(7, 9)), Ok((7, 9)));
    assert_eq!(
        arrow_pointers(&HayashiValue::List(vec![])),
        Err(HayashiError::Type { expected: s("arrow_array"), got: s("list") })
    );
}

#[test]
fn function_errors_are_wrapped() {
    assert_eq!(function_outcome::<i64>(Ok(4)), Ok(4));
    assert_eq!(
        function_outcome::<i64>(Err(s("bad input"))),
        Err(HayashiError::Function(s("bad input")))
    );
}
