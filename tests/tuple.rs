use mirror_mirror::tuple::Iter;
use mirror_mirror::value::{TupleStructValue, TupleValue, Value};

#[test]
fn tuple_value() {
    let mut tuple = TupleValue::new().with_field(Value::I32(1)).with_field(Value::Bool(false));

    assert_eq!(tuple.field(0).unwrap(), &Value::I32(1));
    assert_eq!(tuple.field(1).unwrap(), &Value::Bool(false));

    tuple.patch(&TupleValue::new().with_field(Value::I32(42)).to_value());
    assert_eq!(tuple.field(0).unwrap(), &Value::I32(42));
    assert_eq!(tuple.field(1).unwrap(), &Value::Bool(false));
}

#[test]
fn static_tuple() {
    let mut tuple = Value::TupleValue(TupleValue::new().with_field(Value::I32(1)).with_field(Value::Bool(false)));

    assert_eq!(tuple, TupleValue::new().with_field(Value::I32(1)).with_field(Value::Bool(false)).to_value());

    tuple.patch(&TupleValue::new().with_field(Value::I32(42)).to_value());
    let expected = TupleValue::new().with_field(Value::I32(42)).with_field(Value::Bool(false)).to_value();
    assert_eq!(tuple, expected);
}

#[test]
fn tuple_struct_fields_and_iter() {
    let mut t = TupleStructValue::new().with_element(Value::U8(7));
    t.push_element(Value::Str("x".to_owned()));
    t.push_field(Value::Char('c'));
    assert_eq!(t.fields_len(), 3);
    assert_eq!(t.element(1), Some(&Value::Str("x".to_owned())));
    assert!(t.field(3).is_none());
    let mut it = Iter::new(&t);
    assert_eq!(it.next(), Some(&Value::U8(7)));
    assert_eq!(it.next(), Some(&Value::Str("x".to_owned())));
    assert_eq!(it.next(), Some(&Value::Char('c')));
    assert_eq!(it.next(), None);
    assert_eq!(it.index, 3);
}

#[test]
fn tuple_struct_round_trip() {
    let t = TupleStructValue::new().with_field(Value::I64(-5)).with_field(Value::Bool(true));
    let back = TupleStructValue::from_value(&t.to_value()).unwrap();
    assert_eq!(back.to_value(), t.to_value());
    assert!(TupleStructValue::from_value(&Value::U8(1)).is_none());
    assert!(TupleStructValue::from_value(&TupleValue::new().to_value()).is_none());
}

#[test]
fn tuple_round_trip() {
    let t = TupleValue::new().with_field(Value::U16(3));
    let back = TupleValue::from_value(&t.to_value()).unwrap();
    assert_eq!(back.fields_len(), 1);
    assert_eq!(back.to_value(), t.to_value());
    assert!(TupleValue::from_value(&Value::Bool(false)).is_none());
}

#[test]
fn tuple_struct_patch_ignores_other_kinds() {
    let mut t = TupleStructValue::new().with_field(Value::I32(1));
    t.patch(&TupleValue::new().with_field(Value::I32(9)).to_value());
    assert_eq!(t.field(0), Some(&Value::I32(1)));
    t.patch(&TupleStructValue::new().with_field(Value::I32(9)).to_value());
    assert_eq!(t.field(0), Some(&Value::I32(9)));
    t.patch(&TupleStructValue::new().with_field(Value::U32(5)).to_value());
    assert_eq!(t.field(0), Some(&Value::I32(9)));
}
