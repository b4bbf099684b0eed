//! Errors raised while a plugin call converts its arguments or runs.

use vstd::prelude::*;
use crate::text::{decimal_digits, push_decimal};

verus! {

/// Errors that can occur while a Hayashi plugin runs.
#[derive(Debug, PartialEq)]
pub enum HayashiError {
    /// The JSON received from the host could not be parsed.
    Parse(String),
    /// A `HayashiValue` did not have the type a conversion asked for.
    Type { expected: String, got: String },
    /// Converting one positional argument failed.
    Arg { index: usize, message: String },
    /// The plugin function returned `Err(...)`.
    Function(String),
    /// An error written by the plugin author.
    Custom(String),
}

/// The mathematical content of a `HayashiError`.
pub enum ErrorView {
    Parse(Seq<char>),
    Type { expected: Seq<char>, got: Seq<char> },
    Arg { index: usize, message: Seq<char> },
    Function(Seq<char>),
    Custom(Seq<char>),
}

impl View for HayashiError {
    type V = ErrorView;

    open spec fn view(&self) -> ErrorView {
        match self {
            HayashiError::Parse(m) => ErrorView::Parse(m@),
            HayashiError::Type { expected, got } => ErrorView::Type {
                expected: expected@,
                got: got@,
            },
            HayashiError::Arg { index, message } => ErrorView::Arg {
                index: *index,
                message: message@,
            },
            HayashiError::Function(m) => ErrorView::Function(m@),
            HayashiError::Custom(m) => ErrorView::Custom(m@),
        }
    }
}

/// The message of an error, as its `Display` writes it.
pub open spec fn error_text(e: ErrorView) -> Seq<char> {
    match e {
        ErrorView::Parse(m) => "parse error: "@ + m,
        ErrorView::Type { expected, got } => "type error: expected "@ + expected + ", got "@ + got,
        ErrorView::Arg { index, message } => "argument "@ + decimal_digits(index as nat) + ": "@
            + message,
        ErrorView::Function(m) => "function error: "@ + m,
        ErrorView::Custom(m) => m,
    }
}

/// The view of a conversion result: the value's view or the error's view.
pub open spec fn result_view<T: DeepView>(r: Result<T, HayashiError>) -> Result<T::V, ErrorView> {
    match r {
        Ok(v) => Ok(v.deep_view()),
        Err(e) => Err(e@),
    }
}

/// The type error that a conversion raises for a value of the wrong type.
pub open spec fn type_error(expected: Seq<char>, got: Seq<char>) -> ErrorView {
    ErrorView::Type { expected, got }
}

impl HayashiError {
    /// The message of the error, as `Display` writes it.
    pub fn to_string(&self) -> (r: String)
        ensures
            r@ == error_text(self@),
    {
        let mut s = String::new();
        match self {
            HayashiError::Parse(m) => {
                s.append("parse error: ");
                s.append(m.as_str());
            },
            HayashiError::Type { expected, got } => {
                s.append("type error: expected ");
                s.append(expected.as_str());
                s.append(", got ");
                s.append(got.as_str());
            },
            HayashiError::Arg { index, message } => {
                s.append("argument ");
                push_decimal(&mut s, *index as u64);
                s.append(": ");
                s.append(message.as_str());
            },
            HayashiError::Function(m) => {
                s.append("function error: ");
                s.append(m.as_str());
            },
            HayashiError::Custom(m) => {
                s.append(m.as_str());
            },
        }
        s
    }
}

} // verus!
