//! The arguments of a plugin call: the host sends them as a JSON array.

use vstd::prelude::*;
use crate::arrow_column::ArrowTable;
use crate::convert::{mismatch, FromHayashi};
use crate::encoding::decode_json;
use crate::error::{error_text, result_view, type_error, ErrorView, HayashiError};
use crate::json::{json_parse_outcome, json_wf, parse_json, JsonValue, JsonView};
use crate::value::{kind_name_of, value_wf, HayashiValue, ValueView};

verus! {

/// The message for a document that is not an array.
pub open spec fn not_an_array_text() -> Seq<char> {
    "expected a JSON array of arguments"@
}

/// The arguments a JSON document carries: the values of its elements when it
/// is an array.
pub open spec fn args_of_document(doc: JsonView) -> Result<Seq<ValueView>, ErrorView> {
    match doc {
        JsonView::Array(items) => Ok(items.map_values(|j: JsonView| decode_json(j))),
        _ => Err(ErrorView::Parse(not_an_array_text())),
    }
}

/// The arguments a text carries; a text that is not JSON gives a parse error
/// with the parser's message.
pub open spec fn args_of_text(text: Seq<char>) -> Result<Seq<ValueView>, ErrorView> {
    match json_parse_outcome(text) {
        Ok(doc) => args_of_document(doc),
        Err(m) => Err(ErrorView::Parse(m)),
    }
}

/// The view of a list of arguments, or of the error.
pub open spec fn args_view(r: Result<Vec<HayashiValue>, HayashiError>) -> Result<
    Seq<ValueView>,
    ErrorView,
> {
    match r {
        Ok(vs) => Ok(vs@.map_values(|v: HayashiValue| v@)),
        Err(e) => Err(e@),
    }
}

/// The arguments a parsed JSON document carries.
pub fn args_from_json(doc: &JsonValue) -> (r: Result<Vec<HayashiValue>, HayashiError>)
    ensures
        args_view(r) == args_of_document(doc@),
        json_wf(doc@) ==> (r matches Ok(vs) ==> forall|i: int|
            0 <= i < vs@.len() ==> value_wf(#[trigger] vs@[i]@)),
{
    match doc {
        JsonValue::Array(items) => {
            let ghost docs = doc@->Array_0;
            let mut out: Vec<HayashiValue> = Vec::new();
            let mut i: usize = 0;
            while i < items.len()
                invariant
                    docs == doc@->Array_0,
                    *doc == JsonValue::Array(*items),
                    i <= items.len(),
                    out@.len() == i,
                    forall|k: int| 0 <= k < i ==> (#[trigger] out@[k])@ == decode_json(docs[k]),
                    json_wf(doc@) ==> forall|k: int| 0 <= k < i ==> value_wf(#[trigger] out@[k]@),
                decreases items.len() - i,
            {
                proof {
                    assert(docs[i as int] == items@[i as int]@);
                }
                out.push(HayashiValue::from_json(&items[i]));
                i = i + 1;
            }
            assert(out@.map_values(|v: HayashiValue| v@) =~= docs.map_values(
                |j: JsonView| decode_json(j),
            ));
            Ok(out)
        },
        _ => Err(HayashiError::Parse("expected a JSON array of arguments".to_owned())),
    }
}

/// Parses the JSON array of arguments that the host sends.
///
/// The host always sends the arguments as a JSON array: `[arg0, arg1, ...]`.
pub fn parse_args(json: &str) -> (r: Result<Vec<HayashiValue>, HayashiError>)
    ensures
        args_view(r) == args_of_text(json@),
        r matches Ok(vs) ==> forall|i: int| 0 <= i < vs@.len() ==> value_wf(#[trigger] vs@[i]@),
{
    match parse_json(json) {
        Ok(doc) => args_from_json(&doc),
        Err(m) => Err(HayashiError::Parse(m)),
    }
}

/// The value the next argument takes: the first remaining one, or `Nil` when
/// none remains (so that optional parameters can use `Option<T>`).
pub open spec fn next_arg(args: Seq<HayashiValue>) -> ValueView {
    if args.len() > 0 {
        args[0]@
    } else {
        ValueView::Nil
    }
}

/// The outcome of converting an argument: a failure is reported with the
/// argument's position and the conversion's message.
pub open spec fn arg_outcome<V>(index: usize, r: Result<V, ErrorView>) -> Result<V, ErrorView> {
    match r {
        Ok(x) => Ok(x),
        Err(e) => Err(ErrorView::Arg { index, message: error_text(e) }),
    }
}

/// Takes the next argument and converts it to `T`.
///
/// When no argument remains, `HayashiValue::Nil` stands in. The `index` only
/// serves error messages.
pub fn extract_arg<T: FromHayashi>(args: &mut Vec<HayashiValue>, index: usize) -> (r: Result<
    T,
    HayashiError,
>)
    ensures
        final(args)@ == (if old(args)@.len() > 0 {
            old(args)@.drop_first()
        } else {
            old(args)@
        }),
        result_view(r) == arg_outcome(index, T::from_hayashi_spec(next_arg(old(args)@))),
{
    let val = if args.len() > 0 {
        args.remove(0)
    } else {
        HayashiValue::Nil
    };
    proof {
        assert(old(args)@.len() > 0 ==> old(args)@.remove(0) =~= old(args)@.drop_first());
    }
    match T::from_hayashi(val) {
        Ok(x) => Ok(x),
        Err(e) => Err(HayashiError::Arg { index, message: e.to_string() }),
    }
}

/// Takes the next argument and converts it to `T`, reading an Arrow array
/// from the table wherever a list is asked for.
///
/// When no argument remains, `HayashiValue::Nil` stands in. The `index` only
/// serves error messages.
pub fn extract_arg_with<T: FromHayashi>(
    args: &mut Vec<HayashiValue>,
    index: usize,
    arrays: &ArrowTable,
) -> (r: Result<T, HayashiError>)
    ensures
        final(args)@ == (if old(args)@.len() > 0 {
            old(args)@.drop_first()
        } else {
            old(args)@
        }),
        result_view(r) == arg_outcome(
            index,
            T::from_hayashi_with_spec(next_arg(old(args)@), arrays@),
        ),
{
    let val = if args.len() > 0 {
        args.remove(0)
    } else {
        HayashiValue::Nil
    };
    proof {
        assert(old(args)@.len() > 0 ==> old(args)@.remove(0) =~= old(args)@.drop_first());
    }
    match T::from_hayashi_with(val, arrays) {
        Ok(x) => Ok(x),
        Err(e) => Err(HayashiError::Arg { index, message: e.to_string() }),
    }
}

/// The addresses of the Arrow array an argument carries.
pub open spec fn arrow_pointers_of(val: ValueView) -> Result<(usize, usize), ErrorView> {
    match val {
        ValueView::Arrow(a, s) => Ok((a, s)),
        other => Err(type_error("arrow_array"@, kind_name_of(other))),
    }
}

/// The addresses of the Arrow array an argument carries; any other value is
/// a type error.
pub fn arrow_pointers(val: &HayashiValue) -> (r: Result<(usize, usize), HayashiError>)
    ensures
        match r {
            Ok(p) => arrow_pointers_of(val@) == Ok::<(usize, usize), ErrorView>(p),
            Err(e) => arrow_pointers_of(val@) == Err::<(usize, usize), ErrorView>(e@),
        },
{
    match val {
        HayashiValue::Arrow(a, s) => Ok((*a, *s)),
        other => Err(mismatch("arrow_array", other)),
    }
}

/// The outcome of a plugin function that returns a `Result`, its error
/// already written as text: an `Err` becomes a function error.
pub fn function_outcome<T>(ret: Result<T, String>) -> (r: Result<T, HayashiError>)
    ensures
        match ret {
            Ok(v) => r == Ok::<T, HayashiError>(v),
            Err(m) => r matches Err(e) && e@ == ErrorView::Function(m@),
        },
{
    match ret {
        Ok(v) => Ok(v),
        Err(m) => Err(HayashiError::Function(m)),
    }
}

} // verus!
