//! Columns of Arrow arrays, as the plugin reads them.
//!
//! An Arrow array reaches a plugin through the Arrow C data interface; the
//! host bridge imports it and hands over its type and its cells as an
//! `ArrowColumn`. Each cell becomes a value, a null cell becoming `Nil`.

use vstd::prelude::*;
use crate::error::{ErrorView, HayashiError};
use crate::value::{HayashiValue, ValueView};

verus! {

/// The cells of an Arrow array of a supported type (a `None` cell is null),
/// or the name of an unsupported type as `Debug` writes it.
#[derive(Debug, PartialEq)]
pub enum ArrowColumn {
    /// `Float64` cells, each by the bits of its binary64 encoding.
    Float64(Vec<Option<u64>>),
    Int64(Vec<Option<i64>>),
    Boolean(Vec<Option<bool>>),
    Utf8(Vec<Option<String>>),
    Unsupported(String),
}

/// The mathematical content of an `ArrowColumn`.
pub enum ColumnView {
    Float64(Seq<Option<u64>>),
    Int64(Seq<Option<i64>>),
    Boolean(Seq<Option<bool>>),
    Utf8(Seq<Option<Seq<char>>>),
    Unsupported(Seq<char>),
}

impl View for ArrowColumn {
    type V = ColumnView;

    open spec fn view(&self) -> ColumnView {
        match self {
            ArrowColumn::Float64(c) => ColumnView::Float64(c@),
            ArrowColumn::Int64(c) => ColumnView::Int64(c@),
            ArrowColumn::Boolean(c) => ColumnView::Boolean(c@),
            ArrowColumn::Utf8(c) => ColumnView::Utf8(
                c@.map_values(
                    |x: Option<String>|
                        match x {
                            Some(s) => Some(s@),
                            None => None,
                        },
                ),
            ),
            ArrowColumn::Unsupported(t) => ColumnView::Unsupported(t@),
        }
    }
}

/// The value of one cell: `Nil` for a null cell.
pub open spec fn cell_value<A>(cell: Option<A>, wrap: spec_fn(A) -> ValueView) -> ValueView {
    match cell {
        Some(x) => wrap(x),
        None => ValueView::Nil,
    }
}

/// The message for an Arrow type that has no conversion.
pub open spec fn unsupported_text(arrow_type: Seq<char>) -> Seq<char> {
    "unsupported Arrow type for conversion: "@ + arrow_type
}

/// The values of a column's cells, in order.
pub open spec fn column_values(c: ColumnView) -> Result<Seq<ValueView>, ErrorView> {
    match c {
        ColumnView::Float64(cells) => Ok(
            cells.map_values(|x: Option<u64>| cell_value(x, |b: u64| ValueView::Float(b))),
        ),
        ColumnView::Int64(cells) => Ok(
            cells.map_values(|x: Option<i64>| cell_value(x, |i: i64| ValueView::Int(i))),
        ),
        ColumnView::Boolean(cells) => Ok(
            cells.map_values(|x: Option<bool>| cell_value(x, |b: bool| ValueView::Bool(b))),
        ),
        ColumnView::Utf8(cells) => Ok(
            cells.map_values(
                |x: Option<Seq<char>>| cell_value(x, |s: Seq<char>| ValueView::Str(s)),
            ),
        ),
        ColumnView::Unsupported(t) => Err(ErrorView::Custom(unsupported_text(t))),
    }
}

/// Converts the cells of an Arrow column into values.
pub fn arrow_to_hayashi_values(array: &ArrowColumn) -> (r: Result<Vec<HayashiValue>, HayashiError>)
    ensures
        match r {
            Ok(values) => column_values(array@) == Ok::<Seq<ValueView>, ErrorView>(
                values@.map_values(|v: HayashiValue| v@),
            ),
            Err(e) => column_values(array@) == Err::<Seq<ValueView>, ErrorView>(e@),
        },
{
    let mut values: Vec<HayashiValue> = Vec::new();
    match array {
        ArrowColumn::Float64(cells) => {
            let mut i: usize = 0;
            while i < cells.len()
                invariant
                    i <= cells@.len(),
                    values@.len() == i,
                    forall|k: int|
                        0 <= k < i ==> (#[trigger] values@[k])@ == cell_value(
                            cells@[k],
                            |b: u64| ValueView::Float(b),
                        ),
                decreases cells.len() - i,
            {
                let v = match cells[i] {
                    Some(b) => HayashiValue::Float(b),
                    None => HayashiValue::Nil,
                };
                values.push(v);
                i = i + 1;
            }
            assert(values@.map_values(|v: HayashiValue| v@) =~= column_values(array@)->Ok_0);
        },
        ArrowColumn::Int64(cells) => {
            let mut i: usize = 0;
            while i < cells.len()
                invariant
                    i <= cells@.len(),
                    values@.len() == i,
                    forall|k: int|
                        0 <= k < i ==> (#[trigger] values@[k])@ == cell_value(
                            cells@[k],
                            |n: i64| ValueView::Int(n),
                        ),
                decreases cells.len() - i,
            {
                let v = match cells[i] {
                    Some(n) => HayashiValue::Int(n),
                    None => HayashiValue::Nil,
                };
                values.push(v);
                i = i + 1;
            }
            assert(values@.map_values(|v: HayashiValue| v@) =~= column_values(array@)->Ok_0);
        },
        ArrowColumn::Boolean(cells) => {
            let mut i: usize = 0;
            while i < cells.len()
                invariant
                    i <= cells@.len(),
                    values@.len() == i,
                    forall|k: int|
                        0 <= k < i ==> (#[trigger] values@[k])@ == cell_value(
                            cells@[k],
                            |b: bool| ValueView::Bool(b),
                        ),
                decreases cells.len() - i,
            {
                let v = match cells[i] {
                    Some(b) => HayashiValue::Bool(b),
                    None => HayashiValue::Nil,
                };
                values.push(v);
                i = i + 1;
            }
            assert(values@.map_values(|v: HayashiValue| v@) =~= column_values(array@)->Ok_0);
        },
        ArrowColumn::Utf8(cells) => {
            let ghost texts = array@->Utf8_0;
            let mut i: usize = 0;
            while i < cells.len()
                invariant
                    texts == cells@.map_values(
                        |x: Option<String>|
                            match x {
                                Some(s) => Some(s@),
                                None => None,
                            },
                    ),
                    i <= cells@.len(),
                    values@.len() == i,
                    forall|k: int|
                        0 <= k < i ==> (#[trigger] values@[k])@ == cell_value(
                            texts[k],
                            |s: Seq<char>| ValueView::Str(s),
                        ),
                decreases cells.len() - i,
            {
                let v = match &cells[i] {
                    Some(s) => HayashiValue::Str(s.clone()),
                    None => HayashiValue::Nil,
                };
                values.push(v);
                i = i + 1;
            }
            assert(values@.map_values(|v: HayashiValue| v@) =~= column_values(array@)->Ok_0);
        },
        ArrowColumn::Unsupported(t) => {
            let mut message = String::new();
            message.append("unsupported Arrow type for conversion: ");
            message.append(t.as_str());
            return Err(HayashiError::Custom(message));
        },
    }
    Ok(values)
}

/// The Arrow arrays of a call that have been read, by the addresses of
/// their array and schema structures.
#[derive(Debug, PartialEq)]
pub struct ArrowTable {
    pub arrays: Vec<(usize, usize, ArrowColumn)>,
}

impl View for ArrowTable {
    type V = Seq<(usize, usize, ColumnView)>;

    open spec fn view(&self) -> Seq<(usize, usize, ColumnView)> {
        Seq::new(
            self.arrays@.len(),
            |i: int| (self.arrays@[i].0, self.arrays@[i].1, self.arrays@[i].2@),
        )
    }
}

/// The column read for the first array at the given addresses.
pub open spec fn table_lookup(
    arrays: Seq<(usize, usize, ColumnView)>,
    array_ptr: usize,
    schema_ptr: usize,
) -> Option<ColumnView>
    decreases arrays.len(),
{
    if arrays.len() == 0 {
        None
    } else if arrays[0].0 == array_ptr && arrays[0].1 == schema_ptr {
        Some(arrays[0].2)
    } else {
        table_lookup(arrays.drop_first(), array_ptr, schema_ptr)
    }
}

impl ArrowTable {
    /// A table with no array.
    pub fn new() -> (r: ArrowTable)
        ensures
            r@ == Seq::<(usize, usize, ColumnView)>::empty(),
    {
        let r = ArrowTable { arrays: Vec::new() };
        assert(r@ =~= Seq::<(usize, usize, ColumnView)>::empty());
        r
    }

    /// The column read for the first array at the given addresses.
    pub fn lookup(&self, array_ptr: usize, schema_ptr: usize) -> (r: Option<&ArrowColumn>)
        ensures
            match r {
                Some(c) => table_lookup(self@, array_ptr, schema_ptr) == Some(c@),
                None => table_lookup(self@, array_ptr, schema_ptr) is None,
            },
    {
        let ghost all = self@;
        let mut i: usize = 0;
        proof {
            assert(all.skip(0) =~= all);
        }
        while i < self.arrays.len()
            invariant
                all == self@,
                i <= self.arrays@.len(),
                table_lookup(all, array_ptr, schema_ptr) == table_lookup(
                    all.skip(i as int),
                    array_ptr,
                    schema_ptr,
                ),
            decreases self.arrays.len() - i,
        {
            proof {
                assert(all.skip(i as int)[0] == all[i as int]);
                assert(all.skip(i as int).drop_first() =~= all.skip(i + 1));
            }
            if self.arrays[i].0 == array_ptr && self.arrays[i].1 == schema_ptr {
                return Some(&self.arrays[i].2);
            }
            i = i + 1;
        }
        proof {
            assert(all.skip(i as int).len() == 0);
        }
        None
    }
}

} // verus!
