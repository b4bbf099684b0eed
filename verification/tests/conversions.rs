use hayashi_plugin_sdk::convert::{float_source, string_source, FloatSource, StringSource};
use hayashi_plugin_sdk::{
    extract_arg_with, ArrowColumn, ArrowTable, FloatBits, FromHayashi, Geometry, HayashiError,
    HayashiValue, IntoHayashi, Plot, Seed, StringMap,
};

fn s(text: &str) -> String {
    text.to_string()
}

fn type_error(expected: &str, got: &str) -> HayashiError {
    HayashiError::Type { expected: s(expected), got: s(got) }
}

fn float(f: f64) -> HayashiValue {
    HayashiValue::Float(f.to_bits())
}

#[test]
fn int_conversion() {
    assert_eq!(i64::from_hayashi(HayashiValue::Int(-9)), Ok(-9));
    assert_eq!(i64::from_hayashi(float(2.99)), Ok(2));
    assert_eq!(i64::from_hayashi(float(-2.99)), Ok(-2));
    assert_eq!(i64::from_hayashi(float(f64::NAN)), Ok(0));
    assert_eq!(i64::from_hayashi(HayashiValue::Bool(true)), Ok(1));
    assert_eq!(i64::from_hayashi(HayashiValue::Bool(false)), Ok(0));
    assert_eq!(i64::from_hayashi(HayashiValue::Str(s("1"))), Err(type_error("int", "string")));
    assert_eq!(i64::from_hayashi(HayashiValue::Nil), Err(type_error("int", "nil")));
}

#[test]
fn i32_conversion_truncates() {
    assert_eq!(i32::from_hayashi(HayashiValue::Int(5)), Ok(5));
    assert_eq!(i32::from_hayashi(HayashiValue::Int(1 << 32)), Ok(0));
    assert_eq!(i32::from_hayashi(HayashiValue::Int((1 << 31) + 1)), Ok(((1i64 << 31) + 1) as i32));
    assert_eq!(i32::from_hayashi(HayashiValue::List(vec![])), Err(type_error("int", "list")));
}

#[test]
fn usize_conversion_refuses_negatives() {
    assert_eq!(usize::from_hayashi(HayashiValue::Int(10)), Ok(10));
    assert_eq!(usize::from_hayashi(float(3.5)), Ok(3));
    assert_eq!(
        usize::from_hayashi(HayashiValue::Int(-3)),
        Err(HayashiError::Custom(s("cannot convert negative integer -3 to usize")))
    );
    assert_eq!(usize::from_hayashi(HayashiValue::Nil), Err(type_error("int", "nil")));
}

#[test]
fn bool_conversion() {
    assert_eq!(bool::from_hayashi(HayashiValue::Bool(true)), Ok(true));
    assert_eq!(bool::from_hayashi(HayashiValue::Int(0)), Ok(false));
    assert_eq!(bool::from_hayashi(HayashiValue::Int(-4)), Ok(true));
    assert_eq!(bool::from_hayashi(float(0.0)), Ok(false));
    assert_eq!(bool::from_hayashi(float(-0.0)), Ok(false));
    assert_eq!(bool::from_hayashi(float(0.1)), Ok(true));
    assert_eq!(bool::from_hayashi(float(f64::NAN)), Ok(true));
    assert_eq!(bool::from_hayashi(HayashiValue::Str(s("true"))), Err(type_error("bool", "string")));
}

#[test]
fn string_source_conversion() {
    assert_eq!(string_source(HayashiValue::Str(s("a"))), Ok(StringSource::Text(s("a"))));
    assert_eq!(string_source(HayashiValue::Int(-12)), Ok(StringSource::Text(s("-12"))));
    assert_eq!(string_source(HayashiValue::Bool(false)), Ok(StringSource::Text(s("false"))));
    assert_eq!(string_source(float(1.5)), Ok(StringSource::Float(1.5f64.to_bits())));
    assert_eq!(string_source(HayashiValue::Nil), Err(type_error("string", "nil")));
}

#[test]
fn float_source_conversion() {
    assert_eq!(float_source(float(1.5)), Ok(FloatSource::Bits(1.5f64.to_bits())));
    assert_eq!(float_source(HayashiValue::Int(3)), Ok(FloatSource::Int(3)));
    assert_eq!(float_source(HayashiValue::Bool(true)), Ok(FloatSource::Bits(1.0f64.to_bits())));
    assert_eq!(float_source(HayashiValue::Bool(false)), Ok(FloatSource::Bits(0.0f64.to_bits())));
    assert_eq!(float_source(HayashiValue::Str(s("x"))), Err(type_error("float", "string")));
}

#[test]
fn geometry_plot_and_seed_conversion() {
    assert_eq!(
        Geometry::from_hayashi(HayashiValue::Geometry(s("POINT (1 1)"))),
        Ok(Geometry(s("POINT (1 1)")))
    );
    assert_eq!(Geometry::from_hayashi(HayashiValue::Str(s("POINT (2 2)"))), Ok(Geometry(s("POINT (2 2)"))));
    assert_eq!(Geometry::from_hayashi(HayashiValue::Int(1)), Err(type_error("geometry", "int")));
    assert_eq!(
        Plot::from_hayashi(HayashiValue::Plot { spec: s("x"), format: s("y") }),
        Ok(Plot { spec: s("x"), format: s("y") })
    );
    assert_eq!(Plot::from_hayashi(HayashiValue::Str(s("x"))), Err(type_error("plot", "string")));
    assert_eq!(Seed::from_hayashi(HayashiValue::Int(42)), Ok(Seed(42)));
    assert_eq!(Seed::from_hayashi(HayashiValue::Int(-1)), Ok(Seed(u64::MAX)));
    assert_eq!(Seed::from_hayashi(float(7.9)), Ok(Seed(7)));
    assert_eq!(Seed::from_hayashi(float(-7.9)), Ok(Seed(0)));
    assert_eq!(Seed::from_hayashi(HayashiValue::Bool(true)), Err(type_error("seed (int)", "bool")));
}

#[test]
fn value_and_option_conversion() {
    assert_eq!(HayashiValue::from_hayashi(HayashiValue::Arrow(1, 2)), Ok(HayashiValue::Arrow(1, 2)));
    assert_eq!(Option::<i64>::from_hayashi(HayashiValue::Nil), Ok(None));
    assert_eq!(Option::<i64>::from_hayashi(HayashiValue::Int(4)), Ok(Some(4)));
    assert_eq!(
        Option::<i64>::from_hayashi(HayashiValue::Str(s("4"))),
        Err(type_error("int", "string"))
    );
}

#[test]
fn list_conversion_stops_at_the_first_failure() {
    let ok = HayashiValue::List(vec![HayashiValue::Int(1), float(2.5), HayashiValue::Bool(true)]);
    assert_eq!(Vec::<i64>::from_hayashi(ok), Ok(vec![1, 2, 1]));
    let bad = HayashiValue::List(vec![
        HayashiValue::Int(1),
        HayashiValue::Str(s("x")),
        HayashiValue::Nil,
    ]);
    assert_eq!(Vec::<i64>::from_hayashi(bad), Err(type_error("int", "string")));
    assert_eq!(Vec::<i64>::from_hayashi(HayashiValue::Int(1)), Err(type_error("list or arrow_array", "int")));
    assert_eq!(
        Vec::<i64>::from_hayashi(HayashiValue::Arrow(1, 2)),
        Err(HayashiError::Custom(s(
            "arrow_array must be read through the Arrow C data interface first"
        )))
    );
    assert_eq!(
        Vec::<Option<bool>>::from_hayashi(HayashiValue::List(vec![HayashiValue::Nil, HayashiValue::Int(2)])),
        Ok(vec![None, Some(true)])
    );
}

#[test]
fn dictionary_conversion() {
    let dict = HayashiValue::Dict(vec![(s("a"), HayashiValue::Int(1)), (s("b"), float(2.0))]);
    let map = StringMap::<i64>::from_hayashi(dict).unwrap();
    assert_eq!(map.entries(), &vec![(s("a"), 1), (s("b"), 2)]);
    let bad = HayashiValue::Dict(vec![(s("a"), HayashiValue::Nil)]);
    assert_eq!(StringMap::<i64>::from_hayashi(bad), Err(type_error("int", "nil")));
    assert_eq!(StringMap::<i64>::from_hayashi(HayashiValue::List(vec![])), Err(type_error("dict", "list")));
}

#[test]
fn into_hayashi_for_each_type() {
    assert_eq!(5i64.into_hayashi(), HayashiValue::Int(5));
    assert_eq!((-5i32).into_hayashi(), HayashiValue::Int(-5));
    assert_eq!(7usize.into_hayashi(), HayashiValue::Int(7));
    assert_eq!(usize::MAX.into_hayashi(), HayashiValue::Int(-1));
    assert_eq!(true.into_hayashi(), HayashiValue::Bool(true));
    assert_eq!(s("txt").into_hayashi(), HayashiValue::Str(s("txt")));
    assert_eq!("lit".into_hayashi(), HayashiValue::Str(s("lit")));
    assert_eq!(().into_hayashi(), HayashiValue::Nil);
    assert_eq!(Some(3i64).into_hayashi(), HayashiValue::Int(3));
    assert_eq!(None::<i64>.into_hayashi(), HayashiValue::Nil);
    assert_eq!(
        vec![1i64, 2].into_hayashi(),
        HayashiValue::List(vec![HayashiValue::Int(1), HayashiValue::Int(2)])
    );
    let mut flags = StringMap::new();
    flags.insert(s("k"), false);
    assert_eq!(flags.into_hayashi(), HayashiValue::Dict(vec![(s("k"), HayashiValue::Bool(false))]));
    assert_eq!(HayashiValue::Nil.into_hayashi(), HayashiValue::Nil);
    assert_eq!(Geometry(s("P")).into_hayashi(), HayashiValue::Geometry(s("P")));
    assert_eq!(
        Plot { spec: s("a"), format: s("b") }.into_hayashi(),
        HayashiValue::Plot { spec: s("a"), format: s("b") }
    );
    assert_eq!(Seed(u64::MAX).into_hayashi(), HayashiValue::Int(-1));
}

#[test]
fn conversions_round_trip() {
    for x in [i64::MIN, -1, 0, 1, i64::MAX] {
        assert_eq!(i64::from_hayashi(x.into_hayashi()), Ok(x));
    }
    for x in [i32::MIN, 0, i32::MAX] {
        assert_eq!(i32::from_hayashi(x.into_hayashi()), Ok(x));
    }
    for x in [0usize, 1, i64::MAX as usize] {
        assert_eq!(usize::from_hayashi(x.into_hayashi()), Ok(x));
    }
    for x in [0u64, 1, u64::MAX] {
        assert_eq!(Seed::from_hayashi(Seed(x).into_hayashi()), Ok(Seed(x)));
    }
    assert_eq!(bool::from_hayashi(true.into_hayashi()), Ok(true));
    let list = vec![Some(1i64), None, Some(-3)];
    assert_eq!(Vec::<Option<i64>>::from_hayashi(list.clone().into_hayashi()), Ok(list));
    assert_eq!(
        Geometry::from_hayashi(Geometry(s("G")).into_hayashi()),
        Ok(Geometry(s("G")))
    );
}

#[test]
fn round_trip_fails_for_huge_usize() {
    assert_eq!(
        usize::from_hayashi(usize::MAX.into_hayashi()),
        Err(HayashiError::Custom(s("cannot convert negative integer -1 to usize")))
    );
}

#[test]
fn arrow_columns_convert_to_lists() {
    let table = ArrowTable {
        arrays: vec![
            (16, 32, ArrowColumn::Int64(vec![Some(1), None, Some(3)])),
            (48, 64, ArrowColumn::Unsupported(s("Date64"))),
            (80, 96, ArrowColumn::Utf8(vec![Some(s("a")), None])),
        ],
    };
    assert_eq!(
        Vec::<Option<i64>>::from_hayashi_with(HayashiValue::Arrow(16, 32), &table),
        Ok(vec![Some(1), None, Some(3)])
    );
    assert_eq!(
        Vec::<i64>::from_hayashi_with(HayashiValue::Arrow(16, 32), &table),
        Err(type_error("int", "nil"))
    );
    assert_eq!(
        Vec::<i64>::from_hayashi_with(HayashiValue::Arrow(48, 64), &table),
        Err(HayashiError::Custom(s("unsupported Arrow type for conversion: Date64")))
    );
    assert_eq!(
        Vec::<Option<StringSource>>::from_hayashi_with(HayashiValue::Arrow(80, 96), &table),
        Ok(vec![Some(StringSource::Text(s("a"))), None])
    );
}

#[test]
fn arrow_arrays_inside_composed_types() {
    let table = ArrowTable {
        arrays: vec![(16, 32, ArrowColumn::Float64(vec![Some(1.5f64.to_bits()), Some(2.0f64.to_bits())]))],
    };
    // An optional list given as an Arrow array.
    assert_eq!(
        Option::<Vec<FloatSource>>::from_hayashi_with(HayashiValue::Arrow(16, 32), &table),
        Ok(Some(vec![FloatSource::Bits(1.5f64.to_bits()), FloatSource::Bits(2.0f64.to_bits())]))
    );
    assert_eq!(
        Option::<Vec<FloatSource>>::from_hayashi_with(HayashiValue::Nil, &table),
        Ok(None)
    );
    // A dictionary of columns.
    let dict = HayashiValue::Dict(vec![(s("x"), HayashiValue::Arrow(16, 32))]);
    let columns = StringMap::<Vec<FloatSource>>::from_hayashi_with(dict, &table).unwrap();
    assert_eq!(
        columns.entries(),
        &vec![(
            s("x"),
            vec![FloatSource::Bits(1.5f64.to_bits()), FloatSource::Bits(2.0f64.to_bits())]
        )]
    );
    // An argument taken from a call's arguments.
    let mut args = vec![HayashiValue::Arrow(16, 32), HayashiValue::Int(7)];
    let first: Result<Vec<FloatSource>, HayashiError> = extract_arg_with(&mut args, 0, &table);
    assert_eq!(
        first,
        Ok(vec![FloatSource::Bits(1.5f64.to_bits()), FloatSource::Bits(2.0f64.to_bits())])
    );
    assert_eq!(args, vec![HayashiValue::Int(7)]);
}

#[test]
fn arrow_arrays_not_in_the_table_are_refused() {
    let empty = ArrowTable::new();
    assert_eq!(
        Vec::<i64>::from_hayashi_with(HayashiValue::Arrow(1, 2), &empty),
        Err(HayashiError::Custom(s(
            "arrow_array must be read through the Arrow C data interface first"
        )))
    );
    assert_eq!(
        Vec::<i64>::from_hayashi(HayashiValue::Arrow(1, 2)),
        Err(HayashiError::Custom(s(
            "arrow_array must be read through the Arrow C data interface first"
        )))
    );
    let mut args = vec![HayashiValue::Arrow(1, 2)];
    let r: Result<Vec<i64>, HayashiError> = extract_arg_with(&mut args, 3, &empty);
    assert_eq!(
        r,
        Err(HayashiError::Arg {
            index: 3,
            message: s("arrow_array must be read through the Arrow C data interface first"),
        })
    );
}

#[test]
fn arrow_table_lookup_finds_the_first_match() {
    let table = ArrowTable {
        arrays: vec![
            (1, 2, ArrowColumn::Boolean(vec![Some(true)])),
            (1, 2, ArrowColumn::Boolean(vec![Some(false)])),
        ],
    };
    assert_eq!(table.lookup(1, 2), Some(&ArrowColumn::Boolean(vec![Some(true)])));
    assert_eq!(table.lookup(2, 1), None);
}

#[test]
fn float_and_string_sources_convert_through_the_trait() {
    assert_eq!(
        Vec::<FloatSource>::from_hayashi(HayashiValue::List(vec![
            HayashiValue::Int(2),
            float(0.5),
            HayashiValue::Bool(true),
        ])),
        Ok(vec![FloatSource::Int(2), FloatSource::Bits(0.5f64.to_bits()), FloatSource::Bits(1.0f64.to_bits())])
    );
    assert_eq!(
        FloatSource::from_hayashi(HayashiValue::Str(s("x"))),
        Err(type_error("float", "string"))
    );
    assert_eq!(
        StringSource::from_hayashi(HayashiValue::Int(-12)),
        Ok(StringSource::Text(s("-12")))
    );
    let texts = StringMap::<StringSource>::from_hayashi(HayashiValue::Dict(vec![(
        s("k"),
        HayashiValue::Str(s("v")),
    )]))
    .unwrap();
    assert_eq!(texts.entries(), &vec![(s("k"), StringSource::Text(s("v")))]);
    assert_eq!(FloatBits(2.5f64.to_bits()).into_hayashi(), float(2.5));
    assert_ne!(FloatBits(2.5f64.to_bits()).into_hayashi(), float(0.0));
}

#[test]
fn values_clone_deeply() {
    let v = HayashiValue::Dict(vec![(
        s("a"),
        HayashiValue::List(vec![HayashiValue::Int(1), HayashiValue::Str(s("b"))]),
    )]);
    assert_eq!(v.clone(), v);
}

#[test]
fn seeds_make_reproducible_generators() {
    let a = Seed(42).into_rng();
    let b = <rand::rngs::StdRng as rand::SeedableRng>::seed_from_u64(42);
    assert_eq!(a, b);
    assert_ne!(Seed(1).into_rng(), Seed(2).into_rng());
}

#[test]
fn string_maps_hold_each_key_once() {
    let mut m = StringMap::new();
    assert_eq!(m.len(), 0);
    m.insert(s("a"), 1i64);
    m.insert(s("b"), 2);
    m.insert(s("a"), 3);
    assert_eq!(m.entries(), &vec![(s("a"), 3), (s("b"), 2)]);
    assert_eq!(m.len(), 2);
    assert_eq!(m.get("a"), Some(&3));
    assert_eq!(m.get("c"), None);
    assert_eq!(
        m.into_hayashi(),
        HayashiValue::Dict(vec![(s("a"), HayashiValue::Int(3)), (s("b"), HayashiValue::Int(2))])
    );
    // A later entry of a dictionary replaces the value of an earlier one.
    let repeated = HayashiValue::Dict(vec![
        (s("x"), HayashiValue::Int(1)),
        (s("y"), HayashiValue::Int(2)),
        (s("x"), HayashiValue::Int(5)),
    ]);
    let read = StringMap::<i64>::from_hayashi(repeated).unwrap();
    assert_eq!(read.entries(), &vec![(s("x"), 5), (s("y"), 2)]);
}
