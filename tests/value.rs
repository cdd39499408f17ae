use mirror_mirror::compare::compare;
use mirror_mirror::dict::dict_insert;
use mirror_mirror::key_path::KeyPath;
use mirror_mirror::tuple::{ReflectKind, TupleStruct};
use mirror_mirror::value::{EnumValue, StructValue, TupleStructValue, TupleValue, Value, VariantFields};

fn s(x: &str) -> String {
    x.to_owned()
}

fn person(name: &str, age: u32) -> Value {
    Value::StructValue(Box::new(StructValue {
        fields: vec![(s("name"), Value::Str(s(name))), (s("age"), Value::U32(age))],
    }))
}

#[test]
fn order_of_kinds_comes_first() {
    assert_eq!(compare(&Value::Usize(9), &Value::U8(0)), -1);
    assert_eq!(compare(&Value::Str(s("a")), &Value::Bool(true)), 1);
    assert_eq!(compare(&Value::List(vec![]), &Value::Dict(vec![])), -1);
}

#[test]
fn order_within_a_kind() {
    assert_eq!(compare(&Value::I8(-3), &Value::I8(2)), -1);
    assert_eq!(compare(&Value::I128(i128::MIN), &Value::I128(i128::MAX)), -1);
    assert_eq!(compare(&Value::U128(u128::MAX), &Value::U128(u128::MAX)), 0);
    assert_eq!(compare(&Value::Str(s("ab")), &Value::Str(s("b"))), -1);
    assert_eq!(compare(&Value::Str(s("ab")), &Value::Str(s("a"))), 1);
    assert_eq!(compare(&Value::Char('é'), &Value::Char('z')), 1);
    assert_eq!(compare(&Value::List(vec![Value::U8(1)]), &Value::List(vec![Value::U8(1), Value::U8(0)])), -1);
    assert_eq!(compare(&person("a", 3), &person("a", 2)), 1);
}

#[test]
fn floats_follow_the_total_order_of_their_bits() {
    let nan = Value::F64(f64::NAN.to_bits());
    let neg_nan = Value::F64((-f64::NAN).to_bits());
    let inf = Value::F64(f64::INFINITY.to_bits());
    let neg_zero = Value::F64((-0.0f64).to_bits());
    let zero = Value::F64(0.0f64.to_bits());
    let one = Value::F64(1.0f64.to_bits());
    assert_eq!(compare(&nan, &nan), 0);
    assert_eq!(nan, nan);
    assert_eq!(compare(&neg_nan, &Value::F64(f64::NEG_INFINITY.to_bits())), -1);
    assert_eq!(compare(&inf, &nan), -1);
    assert_eq!(compare(&neg_zero, &zero), -1);
    assert_eq!(compare(&zero, &one), -1);
    assert_eq!(compare(&Value::F32((-2.5f32).to_bits()), &Value::F32((-1.0f32).to_bits())), -1);
}

#[test]
fn order_is_antisymmetric_and_transitive_on_samples() {
    let xs = vec![
        Value::U8(1),
        Value::I32(-1),
        Value::Str(s("q")),
        person("b", 1),
        Value::List(vec![Value::Bool(false)]),
        Value::F32(f32::NAN.to_bits()),
    ];
    for a in &xs {
        for b in &xs {
            assert_eq!(compare(a, b), -compare(b, a));
            assert_eq!(compare(a, b) == 0, a == b);
            for c in &xs {
                if compare(a, b) < 0 && compare(b, c) < 0 {
                    assert!(compare(a, c) < 0);
                }
            }
        }
    }
}

#[test]
fn to_value_is_a_deep_copy() {
    let v = Value::Dict(vec![(Value::Str(s("k")), person("x", 1))]);
    let mut w = v.to_value();
    assert_eq!(v, w);
    assert!(w.set_at(&KeyPath::new().get(Value::Str(s("k"))).field("age"), Value::U32(2)));
    assert_ne!(v, w);
}

#[test]
fn patch_struct_by_name() {
    let mut v = person("ann", 30);
    let other = Value::StructValue(Box::new(StructValue {
        fields: vec![(s("age"), Value::U32(31)), (s("extra"), Value::Bool(true))],
    }));
    v.patch(&other);
    assert_eq!(v, person("ann", 31));
}

#[test]
fn patch_ignores_mismatched_kinds() {
    let mut v = person("ann", 30);
    v.patch(&Value::U32(1));
    assert_eq!(v, person("ann", 30));
    let mut n = Value::U32(5);
    n.patch(&Value::I32(6));
    assert_eq!(n, Value::U32(5));
    n.patch(&Value::U32(6));
    assert_eq!(n, Value::U32(6));
}

#[test]
fn patch_with_itself_keeps_the_value() {
    let mut v = Value::List(vec![person("a", 1), Value::TupleValue(TupleValue::new().with_field(Value::Char('x')))]);
    let copy = v.to_value();
    v.patch(&copy);
    assert_eq!(v, copy);
}

fn variant(name: &str, fields: VariantFields) -> Value {
    Value::EnumValue(Box::new(EnumValue { variant: s(name), fields }))
}

#[test]
fn patch_enum_same_and_other_variant() {
    let mut v = variant("B", VariantFields::Tuple(TupleValue::new().with_field(Value::I32(1)).with_field(Value::I32(2))));
    v.patch(&variant("B", VariantFields::Tuple(TupleValue::new().with_field(Value::I32(7)))));
    assert_eq!(v, variant("B", VariantFields::Tuple(TupleValue::new().with_field(Value::I32(7)).with_field(Value::I32(2)))));
    v.patch(&variant("C", VariantFields::Unit));
    assert_eq!(v, variant("C", VariantFields::Unit));
}

#[test]
fn patch_map_entries_by_key() {
    let mut m = Value::Dict(vec![(Value::U8(1), Value::Str(s("one"))), (Value::U8(2), Value::Str(s("two")))]);
    m.patch(&Value::Dict(vec![(Value::U8(2), Value::Str(s("deux"))), (Value::U8(3), Value::Str(s("trois")))]));
    assert_eq!(m, Value::Dict(vec![(Value::U8(1), Value::Str(s("one"))), (Value::U8(2), Value::Str(s("deux")))]));
}

#[test]
fn from_value_of_plain_values() {
    let v = person("z", 9);
    assert_eq!(Value::from_value(&v), Some(person("z", 9)));
    let st = StructValue::from_value(&v).unwrap();
    assert_eq!(st.fields.len(), 2);
    assert_eq!(st.to_value(), v);
    assert!(StructValue::from_value(&Value::Bool(true)).is_none());
    let e = variant("A", VariantFields::Unit);
    assert_eq!(EnumValue::from_value(&e).unwrap().to_value(), e);
    assert!(EnumValue::from_value(&v).is_none());
}

#[test]
fn conversions_into_values() {
    assert_eq!(Value::from(5u8), Value::U8(5));
    assert_eq!(Value::from(-5i64), Value::I64(-5));
    assert_eq!(Value::from(s("x")), Value::Str(s("x")));
    assert_eq!(Value::from("y"), Value::Str(s("y")));
    assert_eq!(Value::from('q'), Value::Char('q'));
    let t: Value = TupleValue::new().with_field(Value::from(true)).into();
    assert_eq!(t, TupleValue::new().with_field(Value::Bool(true)).to_value());
    let st: Value = StructValue { fields: vec![] }.into();
    assert_eq!(st.reflect_kind(), ReflectKind::Struct);
}

#[test]
fn kinds_of_values() {
    assert_eq!(Value::U8(1).reflect_kind(), ReflectKind::Scalar);
    assert_eq!(Value::Str(s("a")).reflect_kind(), ReflectKind::Scalar);
    assert_eq!(Value::List(vec![]).reflect_kind(), ReflectKind::List);
    assert_eq!(Value::Dict(vec![]).reflect_kind(), ReflectKind::Dict);
    assert_eq!(TupleValue::new().to_value().reflect_kind(), ReflectKind::Tuple);
    assert_eq!(TupleStructValue::new().to_value().reflect_kind(), ReflectKind::TupleStruct);
    assert_eq!(variant("A", VariantFields::Unit).reflect_kind(), ReflectKind::Enum);
}

#[test]
fn tuple_struct_from_fields_and_trait() {
    let t = TupleStructValue::from_fields(vec![Value::U8(1), Value::U8(2)]);
    assert_eq!(TupleStruct::fields_len(&t), 2);
    assert_eq!(TupleStruct::field(&t, 1), Some(&Value::U8(2)));
    assert_eq!(TupleStruct::field(&t, 2), None);
}

#[test]
fn maps_built_in_any_order_are_equal() {
    let mut a = Vec::new();
    dict_insert(&mut a, Value::U8(2), Value::U8(0));
    dict_insert(&mut a, Value::U8(1), Value::U8(0));
    let mut b = Vec::new();
    dict_insert(&mut b, Value::U8(1), Value::U8(0));
    dict_insert(&mut b, Value::U8(2), Value::U8(0));
    assert_eq!(Value::Dict(a.iter().map(|(k, x)| (k.to_value(), x.to_value())).collect()), Value::Dict(b));
    assert_eq!(a[0].0, Value::U8(1));
    dict_insert(&mut a, Value::U8(2), Value::U8(7));
    assert_eq!(a.len(), 2);
    assert_eq!(a[1].1, Value::U8(7));
}

#[test]
fn set_field_keeps_names_distinct() {
    let mut st = StructValue { fields: vec![] };
    st.set_field(s("a"), Value::U8(1));
    st.set_field(s("b"), Value::U8(2));
    st.set_field(s("a"), Value::U8(3));
    assert_eq!(st.fields.len(), 2);
    assert_eq!(st.fields[0], (s("a"), Value::U8(3)));
    assert_eq!(st.fields[1], (s("b"), Value::U8(2)));
}

#[test]
fn set_at_checked_keeps_kinds() {
    let mut v = person("ann", 30);
    let age = KeyPath::new().field("age");
    assert!(!v.set_at_checked(&age, Value::Str(s("old"))));
    assert_eq!(v, person("ann", 30));
    assert!(v.set_at_checked(&age, Value::U32(31)));
    assert_eq!(v, person("ann", 31));
    assert!(!v.set_at_checked(&KeyPath::new().field("nope"), Value::U32(1)));
}

#[test]
fn tuple_struct_default_is_empty() {
    let t = TupleStructValue::default();
    assert_eq!(t.fields_len(), 0);
}
