//! The value exchanged between the Hayashi host and a plugin, and the small
//! wrapper types that mark geometries, plots and random seeds.

use vstd::prelude::*;
use crate::json::keys_distinct;

verus! {

/// A value exchanged between the host (Hayashi) and the plugin.
///
/// DataFrames arrive as a `Dict` of column arrays (key = column name, value =
/// `List`). A float travels as the bit pattern of its IEEE-754 binary64
/// encoding; a dictionary as its entries, whose keys differ from each other.
#[derive(Debug, PartialEq)]
pub enum HayashiValue {
    Float(u64),
    Int(i64),
    Bool(bool),
    Str(String),
    List(Vec<HayashiValue>),
    Dict(Vec<(String, HayashiValue)>),
    /// Addresses of an Arrow C-data-interface array and of its schema.
    Arrow(usize, usize),
    /// A vector geometry in Well-Known Text, e.g. `"POLYGON ((0 0, 1 0, 1 1, 0 0))"`.
    Geometry(String),
    /// A composable visual output: a spec and the name of its format
    /// (`"vega-lite"`, `"plotters-svg"`, `"plotters-png-b64"`).
    Plot { spec: String, format: String },
    Nil,
}

/// The mathematical content of a `HayashiValue`.
pub enum ValueView {
    Float(u64),
    Int(i64),
    Bool(bool),
    Str(Seq<char>),
    List(Seq<ValueView>),
    Dict(Seq<(Seq<char>, ValueView)>),
    Arrow(usize, usize),
    Geometry(Seq<char>),
    Plot { spec: Seq<char>, format: Seq<char> },
    Nil,
}

impl HayashiValue {
    /// The content of the value.
    pub open spec fn model(&self) -> ValueView
        decreases self,
    {
        match self {
            HayashiValue::Float(f) => ValueView::Float(*f),
            HayashiValue::Int(i) => ValueView::Int(*i),
            HayashiValue::Bool(b) => ValueView::Bool(*b),
            HayashiValue::Str(s) => ValueView::Str(s@),
            HayashiValue::List(items) => ValueView::List(
                Seq::new(
                    items@.len(),
                    |i: int|
                        if 0 <= i < items@.len() {
                            items@[i].model()
                        } else {
                            ValueView::Nil
                        },
                ),
            ),
            HayashiValue::Dict(entries) => ValueView::Dict(
                Seq::new(
                    entries@.len(),
                    |i: int|
                        if 0 <= i < entries@.len() {
                            (entries@[i].0@, entries@[i].1.model())
                        } else {
                            (Seq::empty(), ValueView::Nil)
                        },
                ),
            ),
            HayashiValue::Arrow(a, s) => ValueView::Arrow(*a, *s),
            HayashiValue::Geometry(w) => ValueView::Geometry(w@),
            HayashiValue::Plot { spec, format } => ValueView::Plot { spec: spec@, format: format@ },
            HayashiValue::Nil => ValueView::Nil,
        }
    }
}

impl View for HayashiValue {
    type V = ValueView;

    open spec fn view(&self) -> ValueView {
        self.model()
    }
}

impl DeepView for HayashiValue {
    type V = ValueView;

    open spec fn deep_view(&self) -> ValueView {
        self.model()
    }
}

/// Whether every dictionary in the value holds each key once.
pub open spec fn value_wf(v: ValueView) -> bool
    decreases v,
{
    match v {
        ValueView::List(items) => forall|i: int|
            0 <= i < items.len() ==> value_wf(#[trigger] items[i]),
        ValueView::Dict(entries) => {
            &&& keys_distinct(entries)
            &&& forall|i: int| 0 <= i < entries.len() ==> value_wf(#[trigger] entries[i].1)
        },
        _ => true,
    }
}

impl Clone for HayashiValue {
    fn clone(&self) -> (r: HayashiValue)
        ensures
            r@ == self@,
        decreases self,
    {
        match self {
            HayashiValue::Float(f) => HayashiValue::Float(*f),
            HayashiValue::Int(i) => HayashiValue::Int(*i),
            HayashiValue::Bool(b) => HayashiValue::Bool(*b),
            HayashiValue::Str(s) => HayashiValue::Str(s.clone()),
            HayashiValue::List(items) => {
                let mut out: Vec<HayashiValue> = Vec::new();
                let mut i: usize = 0;
                while i < items.len()
                    invariant
                        *self == HayashiValue::List(*items),
                        i <= items.len(),
                        out@.len() == i,
                        forall|k: int| 0 <= k < i ==> (#[trigger] out@[k])@ == items@[k]@,
                    decreases items.len() - i,
                {
                    proof {
                        assert(decreases_to!(*self => (*self)->List_0));
                        assert(decreases_to!(*items => items@));
                        assert(decreases_to!(items@ => items@[i as int]));
                    }
                    let x = items[i].clone();
                    out.push(x);
                    i = i + 1;
                }
                let r = HayashiValue::List(out);
                assert(r@->List_0 =~= self@->List_0) by {
                    assert forall|k: int| 0 <= k < out@.len() implies #[trigger] r@->List_0[k]
                        == self@->List_0[k] by {
                        assert(out@[k]@ == items@[k]@);
                    }
                }
                r
            },
            HayashiValue::Dict(entries) => {
                let mut out: Vec<(String, HayashiValue)> = Vec::new();
                let mut i: usize = 0;
                while i < entries.len()
                    invariant
                        *self == HayashiValue::Dict(*entries),
                        i <= entries.len(),
                        out@.len() == i,
                        forall|k: int| 0 <= k < i ==> (#[trigger] out@[k]).0@ == entries@[k].0@,
                        forall|k: int| 0 <= k < i ==> (#[trigger] out@[k]).1@ == entries@[k].1@,
                    decreases entries.len() - i,
                {
                    proof {
                        assert(decreases_to!(*self => (*self)->Dict_0));
                        assert(decreases_to!(*entries => entries@));
                        assert(decreases_to!(entries@ => entries@[i as int]));
                        assert(decreases_to!(entries@[i as int] => entries@[i as int].1));
                    }
                    let x = entries[i].1.clone();
                    out.push((entries[i].0.clone(), x));
                    i = i + 1;
                }
                let r = HayashiValue::Dict(out);
                assert(r@->Dict_0 =~= self@->Dict_0) by {
                    assert forall|k: int| 0 <= k < out@.len() implies #[trigger] r@->Dict_0[k]
                        == self@->Dict_0[k] by {
                        assert(out@[k].0@ == entries@[k].0@);
                        assert(out@[k].1@ == entries@[k].1@);
                    }
                }
                r
            },
            HayashiValue::Arrow(a, b) => HayashiValue::Arrow(*a, *b),
            HayashiValue::Geometry(w) => HayashiValue::Geometry(w.clone()),
            HayashiValue::Plot { spec, format } => HayashiValue::Plot {
                spec: spec.clone(),
                format: format.clone(),
            },
            HayashiValue::Nil => HayashiValue::Nil,
        }
    }
}

/// The name of a value's type, as used in error messages.
pub open spec fn kind_name_of(v: ValueView) -> Seq<char> {
    match v {
        ValueView::Float(_) => "float"@,
        ValueView::Int(_) => "int"@,
        ValueView::Bool(_) => "bool"@,
        ValueView::Str(_) => "string"@,
        ValueView::List(_) => "list"@,
        ValueView::Dict(_) => "dict"@,
        ValueView::Arrow(_, _) => "arrow_array"@,
        ValueView::Geometry(_) => "geometry"@,
        ValueView::Plot { .. } => "plot"@,
        ValueView::Nil => "nil"@,
    }
}

impl HayashiValue {
    /// Returns the name of the value's type (for error messages).
    pub fn kind_name(&self) -> (r: &'static str)
        ensures
            r@ == kind_name_of(self@),
    {
        match self {
            HayashiValue::Float(_) => "float",
            HayashiValue::Int(_) => "int",
            HayashiValue::Bool(_) => "bool",
            HayashiValue::Str(_) => "string",
            HayashiValue::List(_) => "list",
            HayashiValue::Dict(_) => "dict",
            HayashiValue::Arrow(_, _) => "arrow_array",
            HayashiValue::Geometry(_) => "geometry",
            HayashiValue::Plot { .. } => "plot",
            HayashiValue::Nil => "nil",
        }
    }
}

/// A geometry in Well-Known Text.
///
/// Use it as a parameter or result of a plugin function to tell the host
/// explicitly that the value is geospatial, not a generic string.
#[derive(Debug, Clone, PartialEq)]
pub struct Geometry(pub String);

impl DeepView for Geometry {
    type V = Seq<char>;

    open spec fn deep_view(&self) -> Seq<char> {
        self.0@
    }
}

impl Geometry {
    /// Creates a geometry from a WKT string.
    pub fn from_wkt(wkt: String) -> (r: Geometry)
        ensures
            r.0@ == wkt@,
    {
        Geometry(wkt)
    }

    /// Returns the WKT of the geometry.
    pub fn wkt(&self) -> (r: &str)
        ensures
            r@ == self.0@,
    {
        self.0.as_str()
    }
}

/// A composable visual output: a spec and the name of its format.
///
/// The host decides how to render it (terminal, file, browser) without the
/// plugin knowing the destination.
#[derive(Debug, Clone, PartialEq)]
pub struct Plot {
    pub spec: String,
    pub format: String,
}

impl DeepView for Plot {
    type V = (Seq<char>, Seq<char>);

    open spec fn deep_view(&self) -> (Seq<char>, Seq<char>) {
        (self.spec@, self.format@)
    }
}

impl Plot {
    /// Creates a `Plot` holding a Vega-Lite spec.
    pub fn vega_lite(spec: String) -> (r: Plot)
        ensures
            r.spec@ == spec@,
            r.format@ == "vega-lite"@,
    {
        Plot { spec, format: "vega-lite".to_owned() }
    }

    /// Creates a `Plot` holding an SVG drawn by Plotters.
    pub fn plotters_svg(svg: String) -> (r: Plot)
        ensures
            r.spec@ == svg@,
            r.format@ == "plotters-svg"@,
    {
        Plot { spec: svg, format: "plotters-svg".to_owned() }
    }

    /// Creates a `Plot` holding a base64 PNG drawn by Plotters.
    pub fn plotters_png_b64(b64: String) -> (r: Plot)
        ensures
            r.spec@ == b64@,
            r.format@ == "plotters-png-b64"@,
    {
        Plot { spec: b64, format: "plotters-png-b64".to_owned() }
    }
}

/// A random seed that the host injects when the user calls `set_seed(N)`.
///
/// The host passes `__seed__` as a last hidden argument to plugin functions
/// that declare `seed: Option<Seed>` as their final parameter.
#[derive(Debug, Clone, Copy, PartialEq)]
pub struct Seed(pub u64);

impl DeepView for Seed {
    type V = u64;

    open spec fn deep_view(&self) -> u64 {
        self.0
    }
}

#[verifier::external_type_specification]
#[verifier::external_body]
pub struct ExStdRng(rand::rngs::StdRng);

impl Seed {
    /// Creates a `StdRng` seeded from this seed (`SeedableRng::seed_from_u64`).
    ///
    /// The generator is opaque here: nothing is stated of its state, which
    /// rand derives from the seed alone.
    #[verifier::external_body]
    pub fn into_rng(self) -> rand::rngs::StdRng {
        <rand::rngs::StdRng as rand::SeedableRng>::seed_from_u64(self.0)
    }
}

} // verus!
