# hayashi_plugin_sdk

SDK for native plugins of the Hayashi language: the values a plugin
exchanges with the host, their JSON encoding, the conversions between those
values and Rust types, and the handling of a plugin call's arguments and
output.

## Layout

- `src/` — the library, verified with Verus.
  - `value.rs`: `HayashiValue` and the `Geometry`, `Plot` and `Seed` wrappers.
  - `json.rs`: parsed JSON documents and the reading of `serde_json` values.
  - `encoding.rs`: how values are written as JSON and read back.
  - `convert.rs`: the `FromHayashi` / `IntoHayashi` conversions, and
    `StringMap`, a dictionary that holds each key once.
  - `arrow_column.rs`: the cells of Arrow arrays as values, and the table of
    the arrays a call carries, from which lists are converted.
  - `ffi.rs`: the JSON array of arguments and their extraction.
  - `bridge.rs`: the decisions of the C ABI export around a plugin function.
  - `error.rs`, `text.rs`, `float_bits.rs`: errors, decimal text and JSON
    string escaping, and the casts of binary64 numbers computed on their bits.
  - `laws.rs`: round trips and invariants that relate the operations.
- `tests/` — tests on concrete values.
- `app/` — the edges: floating-point conversions, JSON text output, the
  Arrow C data interface and the C ABI glue (`hayashi_export!`,
  `hayashi_plugin!`).

Floats travel through the library as the bits of their binary64 encoding;
the float arithmetic itself happens in `app/`.
