//! The decisions of the C ABI export that `#[hayashi_fn]` generates around a
//! plugin function: how its return type is handled, what the export is
//! named, and what text it hands back to the host.

use vstd::prelude::*;
use crate::error::{error_text, ErrorView, HayashiError};
use crate::text::{json_escaped, push_json_escaped};

verus! {

/// The shape of a type, as far as the generated export looks at it: a path
/// (with the name of its last segment), a tuple (with its arity), or
/// anything else.
#[derive(Debug, PartialEq)]
pub enum TypeShape {
    Path { last_segment: Option<String> },
    Tuple { arity: usize },
    Other,
}

/// The return type of a plugin function: none written, or a type.
#[derive(Debug, PartialEq)]
pub enum ReturnShape {
    Default,
    Type(TypeShape),
}

/// How the export hands the function's result back.
#[derive(Debug, Clone, Copy, PartialEq, Eq)]
pub enum ReturnKind {
    /// `fn foo() { }` or `-> ()`: the host receives `nil`.
    Unit,
    /// `-> Result<T, E>`: `Ok(v)` is serialized, `Err(e)` becomes an error.
    Result,
    /// `-> T` with `T: IntoHayashi`: serialized directly.
    Value,
}

/// Whether a type is a `Result`: a path whose last segment is `Result`
/// (`Result<T, E>`, `std::result::Result<T, E>`, ...).
pub open spec fn is_result_shape(ty: TypeShape) -> bool {
    match ty {
        TypeShape::Path { last_segment: Some(name) } => name@ == "Result"@,
        _ => false,
    }
}

/// Whether a type is `()`.
pub open spec fn is_unit_shape(ty: TypeShape) -> bool {
    match ty {
        TypeShape::Tuple { arity } => arity == 0,
        _ => false,
    }
}

/// How a return type is handled.
pub open spec fn return_kind(ret: ReturnShape) -> ReturnKind {
    match ret {
        ReturnShape::Default => ReturnKind::Unit,
        ReturnShape::Type(ty) => if is_result_shape(ty) {
            ReturnKind::Result
        } else if is_unit_shape(ty) {
            ReturnKind::Unit
        } else {
            ReturnKind::Value
        },
    }
}

/// Whether the last segment of a path type is `Result`.
pub fn is_result_type(ty: &TypeShape) -> (r: bool)
    ensures
        r == is_result_shape(*ty),
{
    match ty {
        TypeShape::Path { last_segment: Some(name) } => {
            let wanted = "Result".to_owned();
            *name == wanted
        },
        _ => false,
    }
}

/// Whether the type is `()` (the unit tuple).
pub fn is_unit_type(ty: &TypeShape) -> (r: bool)
    ensures
        r == is_unit_shape(*ty),
{
    match ty {
        TypeShape::Tuple { arity } => *arity == 0,
        _ => false,
    }
}

/// How the export hands back the result of a function with this return type.
pub fn classify_return(ret: &ReturnShape) -> (r: ReturnKind)
    ensures
        r == return_kind(*ret),
{
    match ret {
        ReturnShape::Default => ReturnKind::Unit,
        ReturnShape::Type(ty) => if is_result_type(ty) {
            ReturnKind::Result
        } else if is_unit_type(ty) {
            ReturnKind::Unit
        } else {
            ReturnKind::Value
        },
    }
}

/// The pattern of a parameter: a plain identifier, or anything else.
#[derive(Debug, PartialEq)]
pub enum PatternShape {
    Ident(String),
    Other,
}

/// A parameter of a plugin function: `self` in any form, or a typed one.
#[derive(Debug, PartialEq)]
pub enum ParamShape {
    Receiver,
    Typed(PatternShape),
}

/// The message for a parameter whose pattern is not a plain identifier.
pub open spec fn complex_pattern_text() -> Seq<char> {
    "#[hayashi_fn]: only simple identifier patterns are supported as parameter names"@
}

/// The names of the typed parameters (receivers skipped), in order; the
/// first typed parameter that is not a plain identifier is refused.
pub open spec fn parameter_names_of(params: Seq<ParamShape>) -> Result<Seq<Seq<char>>, Seq<char>>
    decreases params.len(),
{
    if params.len() == 0 {
        Ok(seq![])
    } else {
        let rest = parameter_names_of(params.drop_first());
        match params[0] {
            ParamShape::Receiver => rest,
            ParamShape::Typed(PatternShape::Ident(name)) => match rest {
                Ok(names) => Ok(seq![name@] + names),
                Err(e) => Err(e),
            },
            ParamShape::Typed(PatternShape::Other) => Err(complex_pattern_text()),
        }
    }
}

/// The names under which the export binds the arguments.
pub fn parameter_names(params: &Vec<ParamShape>) -> (r: Result<Vec<String>, String>)
    ensures
        match r {
            Ok(names) => parameter_names_of(params@) == Ok::<Seq<Seq<char>>, Seq<char>>(
                names@.map_values(|n: String| n@),
            ),
            Err(e) => parameter_names_of(params@) == Err::<Seq<Seq<char>>, Seq<char>>(e@),
        },
{
    let mut names: Vec<String> = Vec::new();
    let mut i: usize = 0;
    proof {
        assert(params@.skip(0) =~= params@);
    }
    while i < params.len()
        invariant
            i <= params@.len(),
            parameter_names_of(params@) == match parameter_names_of(params@.skip(i as int)) {
                Ok(rest) => Ok(names@.map_values(|n: String| n@) + rest),
                Err(e) => Err(e),
            },
        decreases params.len() - i,
    {
        proof {
            assert(params@.skip(i as int)[0] == params@[i as int]);
            assert(params@.skip(i as int).drop_first() =~= params@.skip(i + 1));
        }
        match &params[i] {
            ParamShape::Receiver => {},
            ParamShape::Typed(PatternShape::Ident(name)) => {
                let ghost before = names@.map_values(|n: String| n@);
                names.push(name.clone());
                proof {
                    assert(names@.map_values(|n: String| n@) =~= before.push(name@));
                    match parameter_names_of(params@.skip(i + 1)) {
                        Ok(rest) => {
                            assert(before + (seq![name@] + rest) =~= before.push(name@) + rest);
                        },
                        Err(e) => {},
                    }
                }
            },
            ParamShape::Typed(PatternShape::Other) => {
                return Err(
                    "#[hayashi_fn]: only simple identifier patterns are supported as parameter names".to_owned(),
                );
            },
        }
        i = i + 1;
    }
    proof {
        assert(params@.skip(i as int).len() == 0);
        assert(names@.map_values(|n: String| n@) + seq![] =~= names@.map_values(|n: String| n@));
    }
    Ok(names)
}

/// The name the plugin function keeps once the export takes its name.
pub open spec fn impl_name_text(fn_name: Seq<char>) -> Seq<char> {
    "__hayashi_impl_"@ + fn_name
}

/// Renames a plugin function to `__hayashi_impl_<name>`.
pub fn impl_name(fn_name: &str) -> (r: String)
    ensures
        r@ == impl_name_text(fn_name@),
{
    let mut s = "__hayashi_impl_".to_owned();
    s.append(fn_name);
    s
}

/// The JSON text that reports an error to the host: an object whose
/// `__error__` member is the error's message, as a JSON string.
pub open spec fn error_payload_text(e: ErrorView) -> Seq<char> {
    "{\"__error__\":\""@ + json_escaped(error_text(e)) + "\"}"@
}

/// The text reported when the plugin panicked.
pub open spec fn panic_payload_text() -> Seq<char> {
    "{\"__error__\":\"plugin panicked\"}"@
}

/// The text reported when the output cannot be a C string.
pub open spec fn invalid_output_text() -> Seq<char> {
    "{\"__error__\":\"plugin returned invalid UTF-8\"}"@
}

/// The JSON text that reports an error to the host.
pub fn error_payload(e: &HayashiError) -> (r: String)
    ensures
        r@ == error_payload_text(e@),
{
    let mut s = "{\"__error__\":\"".to_owned();
    let message = e.to_string();
    push_json_escaped(&mut s, message.as_str());
    s.append("\"}");
    s
}

/// The text of a finished call: the serialized result, the error report, or
/// (when the call panicked, `None`) the panic report.
pub open spec fn call_output(outcome: Option<Result<Seq<char>, ErrorView>>) -> Seq<char> {
    match outcome {
        Some(Ok(s)) => s,
        Some(Err(e)) => error_payload_text(e),
        None => panic_payload_text(),
    }
}

/// The content of a call's outcome.
pub open spec fn outcome_view(outcome: Option<Result<String, HayashiError>>) -> Option<
    Result<Seq<char>, ErrorView>,
> {
    match outcome {
        Some(Ok(s)) => Some(Ok(s@)),
        Some(Err(e)) => Some(Err(e@)),
        None => None,
    }
}

/// The text a call hands back to the host.
pub fn finish_call(outcome: Option<Result<String, HayashiError>>) -> (r: String)
    ensures
        r@ == call_output(outcome_view(outcome)),
{
    match outcome {
        Some(Ok(s)) => s,
        Some(Err(e)) => error_payload(&e),
        None => "{\"__error__\":\"plugin panicked\"}".to_owned(),
    }
}

/// The text that crosses the C ABI: the output itself, unless it holds a NUL
/// character, which a C string cannot carry.
pub open spec fn c_output(output: Seq<char>) -> Seq<char> {
    if output.contains('\0') {
        invalid_output_text()
    } else {
        output
    }
}

/// The text that crosses the C ABI for an output.
pub fn c_string_output(output: String) -> (r: String)
    ensures
        r@ == c_output(output@),
{
    let n = output.as_str().unicode_len();
    let mut i: usize = 0;
    while i < n
        invariant
            n == output@.len(),
            i <= n,
            forall|k: int| 0 <= k < i ==> output@[k] != '\0',
        decreases n - i,
    {
        if output.as_str().get_char(i) == '\0' {
            return "{\"__error__\":\"plugin returned invalid UTF-8\"}".to_owned();
        }
        i = i + 1;
    }
    output
}

} // verus!
