//! Verified core of the Hayashi plugin SDK: the values exchanged between the
//! Hayashi host and native plugins, their JSON encoding, the conversions
//! between values and Rust types, and the argument handling of plugin calls.

pub mod arrow_column;
pub mod bridge;
pub mod convert;
pub mod encoding;
pub mod error;
pub mod ffi;
pub mod float_bits;
pub mod json;
pub mod laws;
pub mod text;
pub mod value;

pub use arrow_column::{ArrowColumn, ArrowTable};
pub use convert::{FloatBits, FloatSource, FromHayashi, IntoHayashi, StringMap, StringSource};
pub use error::HayashiError;
pub use ffi::{extract_arg, extract_arg_with, parse_args};
pub use json::{JsonNumber, JsonValue};
pub use value::{Geometry, HayashiValue, Plot, Seed};
