use bast3st::catchable::cerr;
use bast3st::spec::text::Text;
use bast3st::spec::values::{
    Array, MapKey, MappingOrArray, Numeric, PrimitiveValue, RealMapping, RuntimeValue, Summand,
};

fn t(s: &str) -> Text {
    Text(s.to_string())
}

fn s(v: &str) -> RuntimeValue {
    RuntimeValue::Prim(PrimitiveValue::Str(t(v)))
}

fn n(i: i64) -> RuntimeValue {
    RuntimeValue::Prim(PrimitiveValue::Number(Numeric::Int(i)))
}

fn key(k: &str) -> MapKey {
    MapKey::Str(t(k))
}

fn text_of(v: &RuntimeValue) -> String {
    match v {
        RuntimeValue::Prim(PrimitiveValue::Str(x)) => x.0.clone(),
        other => panic!("not a text: {other:?}"),
    }
}

fn int_of(v: &RuntimeValue) -> i64 {
    match v {
        RuntimeValue::Prim(PrimitiveValue::Number(Numeric::Int(i))) => *i,
        other => panic!("not an integer: {other:?}"),
    }
}

fn mapping(v: &RuntimeValue) -> &RealMapping {
    match v {
        RuntimeValue::Comp(MappingOrArray::Mapping(m)) => m,
        other => panic!("not a mapping: {other:?}"),
    }
}

#[test]
fn array_index_counts_from_the_end_for_negative_keys() {
    let a = Array::new(vec![s("a"), s("b"), s("c")]);
    assert_eq!(text_of(a.get(0).unwrap()), "a");
    assert_eq!(text_of(a.get(-1).unwrap()), "c");
    assert_eq!(text_of(a.get(-3).unwrap()), "a");
    assert_eq!(a.get(3).unwrap_err(), cerr::collection_valueNotFound());
    assert_eq!(a.get(-4).unwrap_err(), cerr::collection_keyInvalidForArray());
    let keys: Vec<i64> = a.keys().iter().map(|k| match k { MapKey::Int(i) => *i, _ => -1 }).collect();
    assert_eq!(keys, vec![0, 1, 2]);
}

#[test]
fn mapping_lookup_uses_the_default() {
    let m = RealMapping::new_with_default(vec![(key("x"), n(1))], Some(Box::new(n(0))));
    assert_eq!(int_of(m.get(&key("x")).unwrap()), 1);
    assert_eq!(int_of(m.get(&key("y")).unwrap()), 0);
    let plain = RealMapping::new_with_default(vec![(key("x"), n(1))], None);
    assert_eq!(plain.get(&key("y")).unwrap_err(), cerr::collection_valueNotFound());
    let arr = MappingOrArray::Array(Array::new(vec![n(5)]));
    assert_eq!(arr.get(&key("x")).unwrap_err(), cerr::collection_keyInvalidForArray());
    assert_eq!(int_of(arr.get(&MapKey::Int(0)).unwrap()), 5);
}

#[test]
fn paths_lead_through_nested_collections() {
    let inner = RuntimeValue::Comp(MappingOrArray::Array(Array::new(vec![n(7), n(8)])));
    let m = RealMapping::new_with_default(vec![(key("list"), inner)], None);
    assert!(matches!(m.get_by_seq(&[]), Ok(None)));
    let v = m.get_by_seq(&[key("list"), MapKey::Int(1)]).unwrap().unwrap();
    assert_eq!(int_of(v), 8);
    assert_eq!(m.get_by_seq(&[key("nope")]).unwrap_err(), cerr::collection_valueNotFound());
}

#[test]
fn new_keys_build_nested_mappings_and_merge() {
    let empty = RealMapping::empty();
    let m = empty.with_new_keys(&vec![(vec![key("a"), key("b")], n(1))]);
    let a = mapping(m.get(&key("a")).unwrap());
    assert_eq!(int_of(a.get(&key("b")).unwrap()), 1);

    let more = RuntimeValue::Comp(MappingOrArray::Mapping(RealMapping::new_with_default(
        vec![(key("c"), n(2))],
        None,
    )));
    let merged = m.with_merged(&vec![(key("a"), more)]);
    let a = mapping(merged.get(&key("a")).unwrap());
    assert_eq!(int_of(a.get(&key("b")).unwrap()), 1);
    assert_eq!(int_of(a.get(&key("c")).unwrap()), 2);

    // a primitive at the end of a path replaces what is there
    let replaced = merged.with_new_keys(&vec![(vec![key("a")], s("z"))]);
    assert_eq!(text_of(replaced.get(&key("a")).unwrap()), "z");
}

#[test]
fn summands_of_values() {
    let nested = RuntimeValue::Comp(MappingOrArray::Array(Array::new(vec![n(100)])));
    let a = Array::new(vec![n(1), s("2"), s("2,5"), s("x"), nested]);
    let got: Vec<String> = a
        .summands()
        .iter()
        .map(|x| match x {
            Summand::Number(Numeric::Int(i)) => format!("n{i}"),
            Summand::Number(_) => "float".to_string(),
            Summand::Int(i) => format!("i{i}"),
            Summand::FloatText(f) => format!("f{}", f.0),
        })
        .collect();
    assert_eq!(got, vec!["n1", "i2", "f2,5", "fx"]);
    let m = MappingOrArray::Mapping(RealMapping::new_with_default(vec![(key("k"), s("-3"))], None));
    assert!(matches!(m.summands()[..], [Summand::Int(-3)]));
}

#[test]
fn primitives_as_text() {
    assert_eq!(PrimitiveValue::Number(Numeric::Int(-12)).into_text().0, "-12");
    assert_eq!(PrimitiveValue::Str(t("ab")).into_text().0, "ab");
    assert_eq!(MapKey::Int(3).into_text().0, "3");
    assert!(matches!(MapKey::Str(t("q")).to_prim(), PrimitiveValue::Str(x) if x.0 == "q"));
}
