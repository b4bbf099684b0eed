//! Conversions between `HayashiValue` and Rust types.

use vstd::prelude::*;
use crate::arrow_column::{
    arrow_to_hayashi_values, column_values, table_lookup, ArrowTable, ColumnView,
};
use crate::error::{result_view, type_error, ErrorView, HayashiError};
use crate::json::keys_distinct;
use crate::float_bits::{
    f64_is_zero, f64_one, f64_to_i64, f64_to_u64, f64_zero, is_nonzero, to_i64, to_u64,
};
use crate::text::{bool_text, bool_to_string, decimal_text, i64_to_string, push_signed_decimal};
use crate::value::{kind_name_of, Geometry, HayashiValue, Plot, Seed, ValueView};

verus! {

/// Conversion of a `HayashiValue` into a Rust type.
///
/// Implemented for the common types; implement it for your own types when
/// they need a custom conversion.
pub trait FromHayashi: Sized + DeepView {
    /// What the conversion gives for a value.
    spec fn from_hayashi_spec(val: ValueView) -> Result<<Self as DeepView>::V, ErrorView>;

    /// What the conversion gives for a value when the call's Arrow arrays
    /// have been read into a table: an Arrow array found there stands for
    /// the list of its cells wherever a list is asked for.
    spec fn from_hayashi_with_spec(
        val: ValueView,
        arrays: Seq<(usize, usize, ColumnView)>,
    ) -> Result<<Self as DeepView>::V, ErrorView>;

    /// With no Arrow array read, both conversions agree.
    proof fn lemma_without_arrays(val: ValueView)
        ensures
            Self::from_hayashi_with_spec(val, Seq::empty()) == Self::from_hayashi_spec(val),
    ;

    fn from_hayashi(val: HayashiValue) -> (r: Result<Self, HayashiError>)
        ensures
            result_view(r) == Self::from_hayashi_spec(val@),
    ;

    fn from_hayashi_with(val: HayashiValue, arrays: &ArrowTable) -> (r: Result<Self, HayashiError>)
        ensures
            result_view(r) == Self::from_hayashi_with_spec(val@, arrays@),
    ;
}

/// Conversion of a Rust type into a `HayashiValue`.
///
/// Implement it for your own types that are returned to the host.
pub trait IntoHayashi: Sized {
    /// The value the conversion gives.
    spec fn into_hayashi_spec(&self) -> ValueView;

    fn into_hayashi(self) -> (r: HayashiValue)
        ensures
            r@ == self.into_hayashi_spec(),
    ;
}

/// The type error for a value that is not of the expected type.
pub fn mismatch(expected: &str, got: &HayashiValue) -> (e: HayashiError)
    ensures
        e@ == type_error(expected@, kind_name_of(got@)),
{
    HayashiError::Type { expected: expected.to_owned(), got: got.kind_name().to_owned() }
}

// --- Integers ----------------------------------------------------------------

/// `int` conversion: integers as they are, floats rounded toward zero and
/// saturated (`f as i64`), booleans as 0 or 1.
pub open spec fn int_from(val: ValueView) -> Result<i64, ErrorView> {
    match val {
        ValueView::Int(i) => Ok(i),
        ValueView::Float(f) => Ok(f64_to_i64(f)),
        ValueView::Bool(b) => Ok(if b { 1 } else { 0 }),
        other => Err(type_error("int"@, kind_name_of(other))),
    }
}

impl FromHayashi for i64 {
    open spec fn from_hayashi_with_spec(
        val: ValueView,
        arrays: Seq<(usize, usize, ColumnView)>,
    ) -> Result<<Self as DeepView>::V, ErrorView> {
        Self::from_hayashi_spec(val)
    }

    proof fn lemma_without_arrays(val: ValueView) {
    }

    fn from_hayashi_with(val: HayashiValue, arrays: &ArrowTable) -> (r: Result<Self, HayashiError>) {
        Self::from_hayashi(val)
    }

    open spec fn from_hayashi_spec(val: ValueView) -> Result<i64, ErrorView> {
        int_from(val)
    }

    fn from_hayashi(val: HayashiValue) -> (r: Result<i64, HayashiError>) {
        match val {
            HayashiValue::Int(i) => Ok(i),
            HayashiValue::Float(f) => Ok(to_i64(f)),
            HayashiValue::Bool(b) => Ok(if b { 1 } else { 0 }),
            other => Err(mismatch("int", &other)),
        }
    }
}

impl FromHayashi for i32 {
    open spec fn from_hayashi_with_spec(
        val: ValueView,
        arrays: Seq<(usize, usize, ColumnView)>,
    ) -> Result<<Self as DeepView>::V, ErrorView> {
        Self::from_hayashi_spec(val)
    }

    proof fn lemma_without_arrays(val: ValueView) {
    }

    fn from_hayashi_with(val: HayashiValue, arrays: &ArrowTable) -> (r: Result<Self, HayashiError>) {
        Self::from_hayashi(val)
    }

    /// The `int` conversion, truncated to 32 bits (`i as i32`).
    open spec fn from_hayashi_spec(val: ValueView) -> Result<i32, ErrorView> {
        match int_from(val) {
            Ok(i) => Ok(i as i32),
            Err(e) => Err(e),
        }
    }

    fn from_hayashi(val: HayashiValue) -> (r: Result<i32, HayashiError>) {
        match i64::from_hayashi(val) {
            Ok(i) => Ok(i as i32),
            Err(e) => Err(e),
        }
    }
}

/// The message for a negative integer that does not fit a `usize`.
pub open spec fn negative_usize_text(i: int) -> Seq<char> {
    "cannot convert negative integer "@ + decimal_text(i) + " to usize"@
}

impl FromHayashi for usize {
    open spec fn from_hayashi_with_spec(
        val: ValueView,
        arrays: Seq<(usize, usize, ColumnView)>,
    ) -> Result<<Self as DeepView>::V, ErrorView> {
        Self::from_hayashi_spec(val)
    }

    proof fn lemma_without_arrays(val: ValueView) {
    }

    fn from_hayashi_with(val: HayashiValue, arrays: &ArrowTable) -> (r: Result<Self, HayashiError>) {
        Self::from_hayashi(val)
    }

    /// The `int` conversion, refused for negative integers.
    open spec fn from_hayashi_spec(val: ValueView) -> Result<usize, ErrorView> {
        match int_from(val) {
            Ok(i) => if i < 0 {
                Err(ErrorView::Custom(negative_usize_text(i as int)))
            } else {
                Ok(i as usize)
            },
            Err(e) => Err(e),
        }
    }

    fn from_hayashi(val: HayashiValue) -> (r: Result<usize, HayashiError>) {
        let i = match i64::from_hayashi(val) {
            Ok(i) => i,
            Err(e) => {
                return Err(e);
            },
        };
        if i < 0 {
            let mut message = String::new();
            message.append("cannot convert negative integer ");
            push_signed_decimal(&mut message, i);
            message.append(" to usize");
            return Err(HayashiError::Custom(message));
        }
        Ok(i as usize)
    }
}

// --- Booleans ----------------------------------------------------------------

impl FromHayashi for bool {
    open spec fn from_hayashi_with_spec(
        val: ValueView,
        arrays: Seq<(usize, usize, ColumnView)>,
    ) -> Result<<Self as DeepView>::V, ErrorView> {
        Self::from_hayashi_spec(val)
    }

    proof fn lemma_without_arrays(val: ValueView) {
    }

    fn from_hayashi_with(val: HayashiValue, arrays: &ArrowTable) -> (r: Result<Self, HayashiError>) {
        Self::from_hayashi(val)
    }

    /// Booleans as they are; an integer or a float is true unless it is zero.
    open spec fn from_hayashi_spec(val: ValueView) -> Result<bool, ErrorView> {
        match val {
            ValueView::Bool(b) => Ok(b),
            ValueView::Int(i) => Ok(i != 0),
            ValueView::Float(f) => Ok(!f64_is_zero(f)),
            other => Err(type_error("bool"@, kind_name_of(other))),
        }
    }

    fn from_hayashi(val: HayashiValue) -> (r: Result<bool, HayashiError>) {
        match val {
            HayashiValue::Bool(b) => Ok(b),
            HayashiValue::Int(0) => Ok(false),
            HayashiValue::Int(_) => Ok(true),
            HayashiValue::Float(f) => Ok(is_nonzero(f)),
            other => Err(mismatch("bool", &other)),
        }
    }
}

// --- Strings and floats ------------------------------------------------------------
//
// Rendering a float as text, and turning an integer into a float, are
// floating-point operations: for these two targets the library decides what
// a value converts from and leaves that last step to the caller.

/// What a `string` conversion starts from: finished text, or a float (by
/// its bits) still to be written as `f64::to_string` writes it.
#[derive(Debug, PartialEq)]
pub enum StringSource {
    Text(String),
    Float(u64),
}

/// The content of a `StringSource`.
pub enum StringSourceView {
    Text(Seq<char>),
    Float(u64),
}

impl DeepView for StringSource {
    type V = StringSourceView;

    open spec fn deep_view(&self) -> StringSourceView {
        match self {
            StringSource::Text(s) => StringSourceView::Text(s@),
            StringSource::Float(b) => StringSourceView::Float(*b),
        }
    }
}

/// `string` conversion: strings as they are, integers and booleans as their
/// decimal text and `true`/`false`, floats left to be written.
pub open spec fn string_source_from(val: ValueView) -> Result<StringSourceView, ErrorView> {
    match val {
        ValueView::Str(s) => Ok(StringSourceView::Text(s)),
        ValueView::Float(f) => Ok(StringSourceView::Float(f)),
        ValueView::Int(i) => Ok(StringSourceView::Text(decimal_text(i as int))),
        ValueView::Bool(b) => Ok(StringSourceView::Text(bool_text(b))),
        other => Err(type_error("string"@, kind_name_of(other))),
    }
}

/// The start of a `string` conversion.
pub fn string_source(val: HayashiValue) -> (r: Result<StringSource, HayashiError>)
    ensures
        result_view(r) == string_source_from(val@),
{
    match val {
        HayashiValue::Str(s) => Ok(StringSource::Text(s)),
        HayashiValue::Float(f) => Ok(StringSource::Float(f)),
        HayashiValue::Int(i) => Ok(StringSource::Text(i64_to_string(i))),
        HayashiValue::Bool(b) => Ok(StringSource::Text(bool_to_string(b))),
        other => Err(mismatch("string", &other)),
    }
}

/// What a `float` conversion starts from: a float (by its bits), or an
/// integer still to be converted with `i as f64`.
#[derive(Debug, PartialEq, Eq)]
pub enum FloatSource {
    Bits(u64),
    Int(i64),
}

impl DeepView for FloatSource {
    type V = FloatSource;

    open spec fn deep_view(&self) -> FloatSource {
        *self
    }
}

/// `float` conversion: floats as they are, booleans as 1.0 or 0.0,
/// integers left to be converted.
pub open spec fn float_source_from(val: ValueView) -> Result<FloatSource, ErrorView> {
    match val {
        ValueView::Float(f) => Ok(FloatSource::Bits(f)),
        ValueView::Int(i) => Ok(FloatSource::Int(i)),
        ValueView::Bool(b) => Ok(FloatSource::Bits(if b { f64_one() } else { f64_zero() })),
        other => Err(type_error("float"@, kind_name_of(other))),
    }
}

/// The start of a `float` conversion.
pub fn float_source(val: HayashiValue) -> (r: Result<FloatSource, HayashiError>)
    ensures
        result_view(r) == float_source_from(val@),
{
    match val {
        HayashiValue::Float(f) => Ok(FloatSource::Bits(f)),
        HayashiValue::Int(i) => Ok(FloatSource::Int(i)),
        HayashiValue::Bool(b) => Ok(FloatSource::Bits(if b { 0x3FF0_0000_0000_0000 } else { 0 })),
        other => Err(mismatch("float", &other)),
    }
}

impl FromHayashi for StringSource {
    /// The `string` conversion; a float is left to be written by the caller.
    open spec fn from_hayashi_spec(val: ValueView) -> Result<StringSourceView, ErrorView> {
        string_source_from(val)
    }

    open spec fn from_hayashi_with_spec(
        val: ValueView,
        arrays: Seq<(usize, usize, ColumnView)>,
    ) -> Result<StringSourceView, ErrorView> {
        string_source_from(val)
    }

    proof fn lemma_without_arrays(val: ValueView) {
    }

    fn from_hayashi(val: HayashiValue) -> (r: Result<StringSource, HayashiError>) {
        string_source(val)
    }

    fn from_hayashi_with(val: HayashiValue, arrays: &ArrowTable) -> (r: Result<
        StringSource,
        HayashiError,
    >) {
        string_source(val)
    }
}

impl FromHayashi for FloatSource {
    /// The `float` conversion; an integer is left to be converted by the caller.
    open spec fn from_hayashi_spec(val: ValueView) -> Result<FloatSource, ErrorView> {
        float_source_from(val)
    }

    open spec fn from_hayashi_with_spec(
        val: ValueView,
        arrays: Seq<(usize, usize, ColumnView)>,
    ) -> Result<FloatSource, ErrorView> {
        float_source_from(val)
    }

    proof fn lemma_without_arrays(val: ValueView) {
    }

    fn from_hayashi(val: HayashiValue) -> (r: Result<FloatSource, HayashiError>) {
        float_source(val)
    }

    fn from_hayashi_with(val: HayashiValue, arrays: &ArrowTable) -> (r: Result<
        FloatSource,
        HayashiError,
    >) {
        float_source(val)
    }
}

/// A float by the bits of its binary64 encoding, as returned to the host.
#[derive(Debug, Clone, Copy, PartialEq, Eq)]
pub struct FloatBits(pub u64);

impl IntoHayashi for FloatBits {
    open spec fn into_hayashi_spec(&self) -> ValueView {
        ValueView::Float(self.0)
    }

    fn into_hayashi(self) -> (r: HayashiValue) {
        HayashiValue::Float(self.0)
    }
}

// --- The value itself ----------------------------------------------------------

impl FromHayashi for HayashiValue {
    open spec fn from_hayashi_with_spec(
        val: ValueView,
        arrays: Seq<(usize, usize, ColumnView)>,
    ) -> Result<<Self as DeepView>::V, ErrorView> {
        Self::from_hayashi_spec(val)
    }

    proof fn lemma_without_arrays(val: ValueView) {
    }

    fn from_hayashi_with(val: HayashiValue, arrays: &ArrowTable) -> (r: Result<Self, HayashiError>) {
        Self::from_hayashi(val)
    }

    open spec fn from_hayashi_spec(val: ValueView) -> Result<ValueView, ErrorView> {
        Ok(val)
    }

    fn from_hayashi(val: HayashiValue) -> (r: Result<HayashiValue, HayashiError>) {
        Ok(val)
    }
}

// --- Geometry, Plot, Seed --------------------------------------------------------

impl FromHayashi for Geometry {
    open spec fn from_hayashi_with_spec(
        val: ValueView,
        arrays: Seq<(usize, usize, ColumnView)>,
    ) -> Result<<Self as DeepView>::V, ErrorView> {
        Self::from_hayashi_spec(val)
    }

    proof fn lemma_without_arrays(val: ValueView) {
    }

    fn from_hayashi_with(val: HayashiValue, arrays: &ArrowTable) -> (r: Result<Self, HayashiError>) {
        Self::from_hayashi(val)
    }

    /// A geometry, or a string (accepted from plugins that predate geometries).
    open spec fn from_hayashi_spec(val: ValueView) -> Result<Seq<char>, ErrorView> {
        match val {
            ValueView::Geometry(w) => Ok(w),
            ValueView::Str(s) => Ok(s),
            other => Err(type_error("geometry"@, kind_name_of(other))),
        }
    }

    fn from_hayashi(val: HayashiValue) -> (r: Result<Geometry, HayashiError>) {
        match val {
            HayashiValue::Geometry(w) => Ok(Geometry(w)),
            HayashiValue::Str(s) => Ok(Geometry(s)),
            other => Err(mismatch("geometry", &other)),
        }
    }
}

impl FromHayashi for Plot {
    open spec fn from_hayashi_with_spec(
        val: ValueView,
        arrays: Seq<(usize, usize, ColumnView)>,
    ) -> Result<<Self as DeepView>::V, ErrorView> {
        Self::from_hayashi_spec(val)
    }

    proof fn lemma_without_arrays(val: ValueView) {
    }

    fn from_hayashi_with(val: HayashiValue, arrays: &ArrowTable) -> (r: Result<Self, HayashiError>) {
        Self::from_hayashi(val)
    }

    open spec fn from_hayashi_spec(val: ValueView) -> Result<(Seq<char>, Seq<char>), ErrorView> {
        match val {
            ValueView::Plot { spec, format } => Ok((spec, format)),
            other => Err(type_error("plot"@, kind_name_of(other))),
        }
    }

    fn from_hayashi(val: HayashiValue) -> (r: Result<Plot, HayashiError>) {
        match val {
            HayashiValue::Plot { spec, format } => Ok(Plot { spec, format }),
            other => Err(mismatch("plot", &other)),
        }
    }
}

impl FromHayashi for Seed {
    open spec fn from_hayashi_with_spec(
        val: ValueView,
        arrays: Seq<(usize, usize, ColumnView)>,
    ) -> Result<<Self as DeepView>::V, ErrorView> {
        Self::from_hayashi_spec(val)
    }

    proof fn lemma_without_arrays(val: ValueView) {
    }

    fn from_hayashi_with(val: HayashiValue, arrays: &ArrowTable) -> (r: Result<Self, HayashiError>) {
        Self::from_hayashi(val)
    }

    /// An integer reinterpreted as `u64` (`i as u64`), or a float rounded
    /// toward zero and saturated (`f as u64`).
    open spec fn from_hayashi_spec(val: ValueView) -> Result<u64, ErrorView> {
        match val {
            ValueView::Int(i) => Ok(i as u64),
            ValueView::Float(f) => Ok(f64_to_u64(f)),
            other => Err(type_error("seed (int)"@, kind_name_of(other))),
        }
    }

    fn from_hayashi(val: HayashiValue) -> (r: Result<Seed, HayashiError>) {
        match val {
            HayashiValue::Int(i) => Ok(Seed(i as u64)),
            HayashiValue::Float(f) => Ok(Seed(to_u64(f))),
            other => Err(mismatch("seed (int)", &other)),
        }
    }
}

// --- Optional values -------------------------------------------------------------

impl<T: FromHayashi> FromHayashi for Option<T> {
    /// `nil` is `None`; any other value is converted as `T`.
    open spec fn from_hayashi_spec(val: ValueView) -> Result<Option<T::V>, ErrorView> {
        Self::from_hayashi_with_spec(val, Seq::empty())
    }

    open spec fn from_hayashi_with_spec(
        val: ValueView,
        arrays: Seq<(usize, usize, ColumnView)>,
    ) -> Result<Option<T::V>, ErrorView> {
        match val {
            ValueView::Nil => Ok(None),
            other => match T::from_hayashi_with_spec(other, arrays) {
                Ok(x) => Ok(Some(x)),
                Err(e) => Err(e),
            },
        }
    }

    proof fn lemma_without_arrays(val: ValueView) {
    }

    fn from_hayashi(val: HayashiValue) -> (r: Result<Option<T>, HayashiError>) {
        let arrays = ArrowTable::new();
        Self::from_hayashi_with(val, &arrays)
    }

    fn from_hayashi_with(val: HayashiValue, arrays: &ArrowTable) -> (r: Result<Option<T>, HayashiError>) {
        match val {
            HayashiValue::Nil => Ok(None),
            other => match T::from_hayashi_with(other, arrays) {
                Ok(x) => Ok(Some(x)),
                Err(e) => Err(e),
            },
        }
    }
}

// --- Collections -----------------------------------------------------------------

/// The position of the entry whose key is `k`, if one has it.
pub open spec fn key_position<X>(m: Seq<(Seq<char>, X)>, k: Seq<char>) -> Option<int> {
    if exists|i: int| 0 <= i < m.len() && (#[trigger] m[i]).0 == k {
        Some(choose|i: int| 0 <= i < m.len() && (#[trigger] m[i]).0 == k)
    } else {
        None
    }
}

/// The entries once `k` is set to `x`: the value of the entry with key `k`
/// replaced where there is one, a new entry at the end otherwise.
pub open spec fn map_insert<X>(m: Seq<(Seq<char>, X)>, k: Seq<char>, x: X) -> Seq<(Seq<char>, X)> {
    match key_position(m, k) {
        Some(i) => m.update(i, (k, x)),
        None => m.push((k, x)),
    }
}

/// The entries that pairs make when set one after another: a later pair
/// replaces the value of an earlier one with the same key.
pub open spec fn map_of<X>(pairs: Seq<(Seq<char>, X)>) -> Seq<(Seq<char>, X)>
    decreases pairs.len(),
{
    if pairs.len() == 0 {
        seq![]
    } else {
        map_insert(map_of(pairs.drop_last()), pairs.last().0, pairs.last().1)
    }
}

proof fn lemma_key_position_at<X>(m: Seq<(Seq<char>, X)>, k: Seq<char>, i: int)
    requires
        keys_distinct(m),
        0 <= i < m.len(),
        m[i].0 == k,
    ensures
        key_position(m, k) == Some(i),
{
    assert(0 <= i < m.len() && (m[i]).0 == k);
    let j = choose|j: int| 0 <= j < m.len() && (#[trigger] m[j]).0 == k;
    if j != i {
        if j < i {
            assert(m[j].0 != m[i].0);
        } else {
            assert(m[i].0 != m[j].0);
        }
    }
}

/// Setting a key keeps the keys of a dictionary distinct.
pub proof fn lemma_map_insert_keeps_keys_distinct<X>(m: Seq<(Seq<char>, X)>, k: Seq<char>, x: X)
    requires
        keys_distinct(m),
    ensures
        keys_distinct(map_insert(m, k, x)),
{
    let r = map_insert(m, k, x);
    match key_position(m, k) {
        Some(i) => {
            assert forall|a: int, b: int| 0 <= a < b < r.len() implies #[trigger] r[a].0
                != #[trigger] r[b].0 by {
                assert(m[a].0 != m[b].0);
            }
        },
        None => {
            assert forall|a: int, b: int| 0 <= a < b < r.len() implies #[trigger] r[a].0
                != #[trigger] r[b].0 by {
                if b == m.len() {
                    assert(!(0 <= a < m.len() && (m[a]).0 == k));
                } else {
                    assert(m[a].0 != m[b].0);
                }
            }
        },
    }
}

/// The entries that pairs make have distinct keys.
pub proof fn lemma_map_of_keys_distinct<X>(pairs: Seq<(Seq<char>, X)>)
    ensures
        keys_distinct(map_of(pairs)),
    decreases pairs.len(),
{
    if pairs.len() > 0 {
        lemma_map_of_keys_distinct(pairs.drop_last());
        lemma_map_insert_keeps_keys_distinct(
            map_of(pairs.drop_last()),
            pairs.last().0,
            pairs.last().1,
        );
    }
}

/// Pairs whose keys are already distinct make exactly those entries.
pub proof fn lemma_map_of_distinct_pairs<X>(pairs: Seq<(Seq<char>, X)>)
    requires
        keys_distinct(pairs),
    ensures
        map_of(pairs) == pairs,
    decreases pairs.len(),
{
    if pairs.len() > 0 {
        let init = pairs.drop_last();
        assert(keys_distinct(init));
        lemma_map_of_distinct_pairs(init);
        let k = pairs.last().0;
        if exists|i: int| 0 <= i < init.len() && (#[trigger] init[i]).0 == k {
            let i = choose|i: int| 0 <= i < init.len() && (#[trigger] init[i]).0 == k;
            assert(pairs[i].0 != pairs[pairs.len() - 1].0);
        }
        assert(init.push(pairs.last()) =~= pairs);
    }
}

/// A dictionary with string keys: its entries in order, each key once.
#[derive(Debug, PartialEq)]
pub struct StringMap<V> {
    entries: Vec<(String, V)>,
}

impl<V> StringMap<V> {
    /// No key occurs in two entries.
    #[verifier::type_invariant]
    spec fn keys_unique(self) -> bool {
        forall|i: int, j: int|
            0 <= i < j < self.entries@.len() ==> #[trigger] self.entries@[i].0@
                != #[trigger] self.entries@[j].0@
    }

    /// The entries, in order.
    pub closed spec fn entry_seq(self) -> Seq<(String, V)> {
        self.entries@
    }

    /// The entries, in order; no key occurs twice.
    pub fn entries(&self) -> (r: &Vec<(String, V)>)
        ensures
            r@ == self.entry_seq(),
            forall|i: int, j: int| 0 <= i < j < r@.len() ==> #[trigger] r@[i].0@ != #[trigger] r@[j].0@,
    {
        proof {
            use_type_invariant(self);
        }
        &self.entries
    }

    /// The number of entries.
    pub fn len(&self) -> (n: usize)
        ensures
            n == self.entry_seq().len(),
    {
        self.entries.len()
    }
}

impl<V: DeepView> DeepView for StringMap<V> {
    type V = Seq<(Seq<char>, V::V)>;

    open spec fn deep_view(&self) -> Seq<(Seq<char>, V::V)> {
        Seq::new(
            self.entry_seq().len(),
            |i: int| (self.entry_seq()[i].0@, self.entry_seq()[i].1.deep_view()),
        )
    }
}

/// The position of the entry whose key is `key`.
fn position_of<V>(entries: &Vec<(String, V)>, key: &String) -> (r: Option<usize>)
    ensures
        match r {
            Some(i) => i < entries@.len() && entries@[i as int].0@ == key@,
            None => forall|j: int| 0 <= j < entries@.len() ==> (#[trigger] entries@[j]).0@ != key@,
        },
{
    let mut i: usize = 0;
    while i < entries.len()
        invariant
            i <= entries@.len(),
            forall|j: int| 0 <= j < i ==> (#[trigger] entries@[j]).0@ != key@,
        decreases entries.len() - i,
    {
        if entries[i].0 == *key {
            return Some(i);
        }
        i = i + 1;
    }
    None
}

impl<V: DeepView> StringMap<V> {
    /// A dictionary with no entry.
    pub fn new() -> (m: StringMap<V>)
        ensures
            m.deep_view() == Seq::<(Seq<char>, V::V)>::empty(),
    {
        let m = StringMap { entries: Vec::new() };
        assert(m.deep_view() =~= Seq::<(Seq<char>, V::V)>::empty());
        m
    }

    /// Sets `key` to `value`: the value of an entry with that key is
    /// replaced, or a new entry is added at the end.
    pub fn insert(&mut self, key: String, value: V)
        ensures
            final(self).deep_view() == map_insert(old(self).deep_view(), key@, value.deep_view()),
    {
        proof {
            use_type_invariant(&*self);
        }
        let ghost before = self.deep_view();
        let ghost old_entries = self.entries@;
        let ghost key_view = key@;
        let ghost value_view = value.deep_view();
        let mut entries: Vec<(String, V)> = Vec::new();
        std::mem::swap(&mut entries, &mut self.entries);
        assert(entries@ == old_entries);
        assert(keys_distinct(before));
        match position_of(&entries, &key) {
            Some(i) => {
                proof {
                    lemma_key_position_at(before, key_view, i as int);
                }
                entries.set(i, (key, value));
                proof {
                    assert(Seq::new(
                        entries@.len(),
                        |j: int| (entries@[j].0@, entries@[j].1.deep_view()),
                    ) =~= before.update(i as int, (key_view, value_view)));
                }
            },
            None => {
                proof {
                    assert(!exists|j: int| 0 <= j < before.len() && (#[trigger] before[j]).0 == key_view) by {
                        assert forall|j: int| 0 <= j < before.len() implies !((#[trigger] before[j]).0
                            == key_view) by {
                            assert(old_entries[j].0@ != key_view);
                        }
                    }
                }
                entries.push((key, value));
                proof {
                    assert(Seq::new(
                        entries@.len(),
                        |j: int| (entries@[j].0@, entries@[j].1.deep_view()),
                    ) =~= before.push((key_view, value_view)));
                }
            },
        }
        proof {
            lemma_map_insert_keeps_keys_distinct(before, key_view, value_view);
            let after = map_insert(before, key_view, value_view);
            assert forall|a: int, b: int| 0 <= a < b < entries@.len() implies #[trigger] entries@[a].0@
                != #[trigger] entries@[b].0@ by {
                assert(after[a].0 != after[b].0);
            }
        }
        self.entries = entries;
    }

    /// The value of the entry whose key is `key`.
    pub fn get(&self, key: &str) -> (r: Option<&V>)
        ensures
            match r {
                Some(v) => key_position(self.deep_view(), key@) matches Some(i) && v.deep_view()
                    == self.deep_view()[i].1,
                None => key_position(self.deep_view(), key@) is None,
            },
    {
        proof {
            use_type_invariant(self);
        }
        let ghost all = self.deep_view();
        let wanted = key.to_owned();
        match position_of(&self.entries, &wanted) {
            Some(i) => {
                proof {
                    lemma_key_position_at(all, key@, i as int);
                }
                Some(&self.entries[i].1)
            },
            None => {
                proof {
                    assert(!exists|j: int| 0 <= j < all.len() && (#[trigger] all[j]).0 == key@) by {
                        assert forall|j: int| 0 <= j < all.len() implies !((#[trigger] all[j]).0
                            == key@) by {
                            assert(self.entries@[j].0@ != wanted@);
                        }
                    }
                }
                None
            },
        }
    }
}

/// The elements of a list converted one by one, failing with the error of
/// the first element that does not convert.
pub open spec fn list_from<T: FromHayashi>(
    items: Seq<ValueView>,
    arrays: Seq<(usize, usize, ColumnView)>,
) -> Result<Seq<T::V>, ErrorView>
    decreases items.len(),
{
    if items.len() == 0 {
        Ok(seq![])
    } else {
        match T::from_hayashi_with_spec(items[0], arrays) {
            Err(e) => Err(e),
            Ok(x) => match list_from::<T>(items.drop_first(), arrays) {
                Ok(xs) => Ok(seq![x] + xs),
                Err(e) => Err(e),
            },
        }
    }
}

/// The values of dictionary entries converted one by one (keys kept),
/// failing with the error of the first value that does not convert.
pub open spec fn entries_from<V: FromHayashi>(
    entries: Seq<(Seq<char>, ValueView)>,
    arrays: Seq<(usize, usize, ColumnView)>,
) -> Result<Seq<(Seq<char>, V::V)>, ErrorView>
    decreases entries.len(),
{
    if entries.len() == 0 {
        Ok(seq![])
    } else {
        match V::from_hayashi_with_spec(entries[0].1, arrays) {
            Err(e) => Err(e),
            Ok(x) => match entries_from::<V>(entries.drop_first(), arrays) {
                Ok(xs) => Ok(seq![(entries[0].0, x)] + xs),
                Err(e) => Err(e),
            },
        }
    }
}

/// The message for an Arrow array that has not been read yet.
pub open spec fn unread_arrow_text() -> Seq<char> {
    "arrow_array must be read through the Arrow C data interface first"@
}

/// The elements of `v` in reverse order.
fn reversed<T>(v: Vec<T>) -> (r: Vec<T>)
    ensures
        r@ == v@.reverse(),
{
    let mut v = v;
    let ghost all = v@;
    let mut r: Vec<T> = Vec::new();
    while v.len() > 0
        invariant
            all.len() == v@.len() + r@.len(),
            v@ == all.take(v@.len() as int),
            r@ == all.skip(v@.len() as int).reverse(),
        decreases v.len(),
    {
        let ghost n = v@.len();
        let x = v.pop().unwrap();
        r.push(x);
        proof {
            assert(all.take(n - 1) =~= all.take(n as int).drop_last());
            assert(all.skip(n - 1).reverse() =~= all.skip(n as int).reverse().push(all[n - 1]));
        }
    }
    proof {
        assert(all.skip(0) =~= all);
    }
    r
}

/// Converts the elements of a list one by one.
fn list_into<T: FromHayashi>(items: Vec<HayashiValue>, arrays: &ArrowTable) -> (r: Result<
    Vec<T>,
    HayashiError,
>)
    ensures
        result_view(r) == list_from::<T>(items@.map_values(|x: HayashiValue| x@), arrays@),
{
    let ghost all = items@.map_values(|x: HayashiValue| x@);
    let mut rest = reversed(items);
    let mut out: Vec<T> = Vec::new();
    let ghost mut k: int = 0;
    proof {
        assert(all.skip(0) =~= all);
        assert(out.deep_view() =~= seq![]);
    }
    while rest.len() > 0
        invariant
            all == items@.map_values(|x: HayashiValue| x@),
            0 <= k <= all.len(),
            rest@.len() == all.len() - k,
            forall|i: int| 0 <= i < rest@.len() ==> (#[trigger] rest@[i])@ == all[all.len() - 1 - i],
            list_from::<T>(all, arrays@) == match list_from::<T>(all.skip(k), arrays@) {
                Ok(xs) => Ok(out.deep_view() + xs),
                Err(e) => Err(e),
            },
        decreases rest.len(),
    {
        let x = rest.pop().unwrap();
        proof {
            assert(x@ == all[k]);
            assert(all.skip(k)[0] == all[k]);
            assert(all.skip(k).drop_first() =~= all.skip(k + 1));
        }
        match T::from_hayashi_with(x, arrays) {
            Ok(y) => {
                let ghost before = out.deep_view();
                out.push(y);
                proof {
                    assert(out.deep_view() =~= before + seq![y.deep_view()]);
                    match list_from::<T>(all.skip(k + 1), arrays@) {
                        Ok(xs) => {
                            assert(before + (seq![y.deep_view()] + xs) =~= out.deep_view() + xs);
                        },
                        Err(e) => {},
                    }
                    k = k + 1;
                }
            },
            Err(e) => {
                proof {
                    assert(all.skip(k).len() > 0);
                    assert(list_from::<T>(all.skip(k), arrays@) == Err::<Seq<T::V>, ErrorView>(e@));
                }
                return Err(e);
            },
        }
    }
    proof {
        assert(all.skip(k).len() == 0);
        assert(out.deep_view() + seq![] =~= out.deep_view());
    }
    Ok(out)
}

/// Converts the values of dictionary entries one by one, setting each
/// converted entry in a dictionary in turn.
fn entries_into<V: FromHayashi>(entries: Vec<(String, HayashiValue)>, arrays: &ArrowTable) -> (r: Result<
    StringMap<V>,
    HayashiError,
>)
    ensures
        result_view(r) == match entries_from::<V>(
            entries@.map_values(|e: (String, HayashiValue)| (e.0@, e.1@)),
            arrays@,
        ) {
            Ok(pairs) => Ok(map_of(pairs)),
            Err(e) => Err(e),
        },
{
    let ghost all = entries@.map_values(|e: (String, HayashiValue)| (e.0@, e.1@));
    let mut rest = reversed(entries);
    let mut out: StringMap<V> = StringMap::new();
    let ghost mut k: int = 0;
    let ghost mut done: Seq<(Seq<char>, V::V)> = seq![];
    proof {
        assert(all.skip(0) =~= all);
        match entries_from::<V>(all, arrays@) {
            Ok(xs) => {
                assert(done + xs =~= xs);
            },
            Err(e) => {},
        }
    }
    while rest.len() > 0
        invariant
            all == entries@.map_values(|e: (String, HayashiValue)| (e.0@, e.1@)),
            0 <= k <= all.len(),
            rest@.len() == all.len() - k,
            forall|i: int|
                0 <= i < rest@.len() ==> ((#[trigger] rest@[i]).0@, rest@[i].1@) == all[all.len()
                    - 1 - i],
            entries_from::<V>(all, arrays@) == match entries_from::<V>(all.skip(k), arrays@) {
                Ok(xs) => Ok(done + xs),
                Err(e) => Err(e),
            },
            out.deep_view() == map_of(done),
        decreases rest.len(),
    {
        let (key, x) = rest.pop().unwrap();
        proof {
            assert((key@, x@) == all[k]);
            assert(all.skip(k)[0] == all[k]);
            assert(all.skip(k).drop_first() =~= all.skip(k + 1));
        }
        match V::from_hayashi_with(x, arrays) {
            Ok(y) => {
                let ghost before = done;
                let ghost pair = (key@, y.deep_view());
                out.insert(key, y);
                proof {
                    done = before.push(pair);
                    assert(done.drop_last() =~= before);
                    match entries_from::<V>(all.skip(k + 1), arrays@) {
                        Ok(xs) => {
                            assert(before + (seq![pair] + xs) =~= done + xs);
                        },
                        Err(e) => {},
                    }
                    k = k + 1;
                }
            },
            Err(e) => {
                proof {
                    assert(all.skip(k).len() > 0);
                    assert(entries_from::<V>(all.skip(k), arrays@) == Err::<Seq<(Seq<char>, V::V)>, ErrorView>(
                        e@,
                    ));
                }
                return Err(e);
            },
        }
    }
    proof {
        assert(all.skip(k).len() == 0);
        assert(done + seq![] =~= done);
    }
    Ok(out)
}

proof fn lemma_list_view(items: Vec<HayashiValue>)
    ensures
        HayashiValue::List(items)@ == ValueView::List(items@.map_values(|x: HayashiValue| x@)),
{
    assert(HayashiValue::List(items)@->List_0 =~= items@.map_values(|x: HayashiValue| x@));
}

proof fn lemma_dict_view(entries: Vec<(String, HayashiValue)>)
    ensures
        HayashiValue::Dict(entries)@ == ValueView::Dict(
            entries@.map_values(|e: (String, HayashiValue)| (e.0@, e.1@)),
        ),
{
    assert(HayashiValue::Dict(entries)@->Dict_0 =~= entries@.map_values(
        |e: (String, HayashiValue)| (e.0@, e.1@),
    ));
}

impl<T: FromHayashi> FromHayashi for Vec<T> {
    /// A list converted element by element. An Arrow array is converted cell
    /// by cell once it has been read (see `from_hayashi_with_spec`); without a
    /// table of read arrays it is refused.
    open spec fn from_hayashi_spec(val: ValueView) -> Result<Seq<T::V>, ErrorView> {
        Self::from_hayashi_with_spec(val, Seq::empty())
    }

    /// A list converted element by element; an Arrow array found in the
    /// table converted cell by cell, one not found refused.
    open spec fn from_hayashi_with_spec(
        val: ValueView,
        arrays: Seq<(usize, usize, ColumnView)>,
    ) -> Result<Seq<T::V>, ErrorView> {
        match val {
            ValueView::List(items) => list_from::<T>(items, arrays),
            ValueView::Arrow(a, s) => match table_lookup(arrays, a, s) {
                Some(column) => match column_values(column) {
                    Ok(values) => list_from::<T>(values, arrays),
                    Err(e) => Err(e),
                },
                None => Err(ErrorView::Custom(unread_arrow_text())),
            },
            other => Err(type_error("list or arrow_array"@, kind_name_of(other))),
        }
    }

    proof fn lemma_without_arrays(val: ValueView) {
    }

    fn from_hayashi(val: HayashiValue) -> (r: Result<Vec<T>, HayashiError>) {
        let arrays = ArrowTable::new();
        Self::from_hayashi_with(val, &arrays)
    }

    fn from_hayashi_with(val: HayashiValue, arrays: &ArrowTable) -> (r: Result<Vec<T>, HayashiError>) {
        match val {
            HayashiValue::List(items) => {
                proof {
                    lemma_list_view(items);
                }
                list_into::<T>(items, arrays)
            },
            HayashiValue::Arrow(a, s) => match arrays.lookup(a, s) {
                Some(column) => match arrow_to_hayashi_values(column) {
                    Ok(values) => list_into::<T>(values, arrays),
                    Err(e) => Err(e),
                },
                None => Err(
                    HayashiError::Custom(
                        "arrow_array must be read through the Arrow C data interface first".to_owned(),
                    ),
                ),
            },
            other => Err(mismatch("list or arrow_array", &other)),
        }
    }
}

impl<V: FromHayashi> FromHayashi for StringMap<V> {
    /// A dictionary converted value by value.
    open spec fn from_hayashi_spec(val: ValueView) -> Result<Seq<(Seq<char>, V::V)>, ErrorView> {
        Self::from_hayashi_with_spec(val, Seq::empty())
    }

    open spec fn from_hayashi_with_spec(
        val: ValueView,
        arrays: Seq<(usize, usize, ColumnView)>,
    ) -> Result<Seq<(Seq<char>, V::V)>, ErrorView> {
        match val {
            ValueView::Dict(entries) => match entries_from::<V>(entries, arrays) {
                Ok(pairs) => Ok(map_of(pairs)),
                Err(e) => Err(e),
            },
            other => Err(type_error("dict"@, kind_name_of(other))),
        }
    }

    proof fn lemma_without_arrays(val: ValueView) {
    }

    fn from_hayashi(val: HayashiValue) -> (r: Result<StringMap<V>, HayashiError>) {
        let arrays = ArrowTable::new();
        Self::from_hayashi_with(val, &arrays)
    }

    fn from_hayashi_with(val: HayashiValue, arrays: &ArrowTable) -> (r: Result<StringMap<V>, HayashiError>) {
        match val {
            HayashiValue::Dict(entries) => {
                proof {
                    lemma_dict_view(entries);
                }
                entries_into::<V>(entries, arrays)
            },
            other => Err(mismatch("dict", &other)),
        }
    }
}

// --- Into ------------------------------------------------------------------------

impl IntoHayashi for i64 {
    open spec fn into_hayashi_spec(&self) -> ValueView {
        ValueView::Int(*self)
    }

    fn into_hayashi(self) -> (r: HayashiValue) {
        HayashiValue::Int(self)
    }
}

impl IntoHayashi for i32 {
    open spec fn into_hayashi_spec(&self) -> ValueView {
        ValueView::Int(*self as i64)
    }

    fn into_hayashi(self) -> (r: HayashiValue) {
        HayashiValue::Int(self as i64)
    }
}

impl IntoHayashi for usize {
    /// The integer reinterpreted as `i64` (`n as i64`).
    open spec fn into_hayashi_spec(&self) -> ValueView {
        ValueView::Int(*self as i64)
    }

    fn into_hayashi(self) -> (r: HayashiValue) {
        HayashiValue::Int(self as i64)
    }
}

impl IntoHayashi for bool {
    open spec fn into_hayashi_spec(&self) -> ValueView {
        ValueView::Bool(*self)
    }

    fn into_hayashi(self) -> (r: HayashiValue) {
        HayashiValue::Bool(self)
    }
}

impl IntoHayashi for String {
    open spec fn into_hayashi_spec(&self) -> ValueView {
        ValueView::Str(self@)
    }

    fn into_hayashi(self) -> (r: HayashiValue) {
        HayashiValue::Str(self)
    }
}

impl<'a> IntoHayashi for &'a str {
    open spec fn into_hayashi_spec(&self) -> ValueView {
        ValueView::Str((*self)@)
    }

    fn into_hayashi(self) -> (r: HayashiValue) {
        HayashiValue::Str(self.to_owned())
    }
}

impl IntoHayashi for () {
    open spec fn into_hayashi_spec(&self) -> ValueView {
        ValueView::Nil
    }

    fn into_hayashi(self) -> (r: HayashiValue) {
        HayashiValue::Nil
    }
}

impl<T: IntoHayashi> IntoHayashi for Option<T> {
    open spec fn into_hayashi_spec(&self) -> ValueView {
        match self {
            Some(v) => v.into_hayashi_spec(),
            None => ValueView::Nil,
        }
    }

    fn into_hayashi(self) -> (r: HayashiValue) {
        match self {
            Some(v) => v.into_hayashi(),
            None => HayashiValue::Nil,
        }
    }
}

impl<T: IntoHayashi> IntoHayashi for Vec<T> {
    open spec fn into_hayashi_spec(&self) -> ValueView {
        ValueView::List(Seq::new(self@.len(), |i: int| self@[i].into_hayashi_spec()))
    }

    fn into_hayashi(self) -> (r: HayashiValue) {
        let ghost all = self@;
        let mut rest = reversed(self);
        let mut out: Vec<HayashiValue> = Vec::new();
        while rest.len() > 0
            invariant
                rest@.len() + out@.len() == all.len(),
                forall|i: int| 0 <= i < rest@.len() ==> #[trigger] rest@[i] == all[all.len() - 1 - i],
                forall|i: int|
                    0 <= i < out@.len() ==> (#[trigger] out@[i])@ == all[i].into_hayashi_spec(),
            decreases rest.len(),
        {
            let x = rest.pop().unwrap();
            out.push(x.into_hayashi());
        }
        let r = HayashiValue::List(out);
        assert(r@->List_0 =~= Seq::new(all.len(), |i: int| all[i].into_hayashi_spec()));
        r
    }
}

impl<V: IntoHayashi> IntoHayashi for StringMap<V> {
    open spec fn into_hayashi_spec(&self) -> ValueView {
        ValueView::Dict(
            Seq::new(
                self.entry_seq().len(),
                |i: int| (self.entry_seq()[i].0@, self.entry_seq()[i].1.into_hayashi_spec()),
            ),
        )
    }

    /// The entries become those of a `Dict`, whose keys are then distinct.
    fn into_hayashi(self) -> (r: HayashiValue)
        ensures
            r@ matches ValueView::Dict(es) && keys_distinct(es),
    {
        proof {
            use_type_invariant(&self);
        }
        let ghost all = self.entries@;
        let mut rest = reversed(self.entries);
        let mut out: Vec<(String, HayashiValue)> = Vec::new();
        while rest.len() > 0
            invariant
                rest@.len() + out@.len() == all.len(),
                forall|i: int| 0 <= i < rest@.len() ==> #[trigger] rest@[i] == all[all.len() - 1 - i],
                forall|i: int| 0 <= i < out@.len() ==> (#[trigger] out@[i]).0@ == all[i].0@,
                forall|i: int|
                    0 <= i < out@.len() ==> (#[trigger] out@[i]).1@ == all[i].1.into_hayashi_spec(),
            decreases rest.len(),
        {
            let (key, x) = rest.pop().unwrap();
            out.push((key, x.into_hayashi()));
        }
        let r = HayashiValue::Dict(out);
        assert(r@->Dict_0 =~= Seq::new(
            all.len(),
            |i: int| (all[i].0@, all[i].1.into_hayashi_spec()),
        ));
        r
    }
}

impl IntoHayashi for HayashiValue {
    open spec fn into_hayashi_spec(&self) -> ValueView {
        self@
    }

    fn into_hayashi(self) -> (r: HayashiValue) {
        self
    }
}

impl IntoHayashi for Geometry {
    open spec fn into_hayashi_spec(&self) -> ValueView {
        ValueView::Geometry(self.0@)
    }

    fn into_hayashi(self) -> (r: HayashiValue) {
        HayashiValue::Geometry(self.0)
    }
}

impl IntoHayashi for Plot {
    open spec fn into_hayashi_spec(&self) -> ValueView {
        ValueView::Plot { spec: self.spec@, format: self.format@ }
    }

    fn into_hayashi(self) -> (r: HayashiValue) {
        HayashiValue::Plot { spec: self.spec, format: self.format }
    }
}

impl IntoHayashi for Seed {
    /// The seed reinterpreted as `i64` (`s as i64`).
    open spec fn into_hayashi_spec(&self) -> ValueView {
        ValueView::Int(self.0 as i64)
    }

    fn into_hayashi(self) -> (r: HayashiValue) {
        HayashiValue::Int(self.0 as i64)
    }
}

} // verus!
