use mirror_mirror::graph::{
    type_info, NamedFieldNode, NodeId, StructNode, TupleVariantNode, TypeGraph, TypeNode, TypeRoot,
    Typed, UnitVariantNode, UnnamedFieldNode, StructVariantNode, EnumNode, VariantNode, ScalarNode,
    TupleStructNode, ListNode, MapNode,
};
use mirror_mirror::key_path::{Key, KeyPath, NamedOrNumbered};
use mirror_mirror::resolve::{type_at, value_at, TypeAtPath};
use mirror_mirror::value::{EnumValue, StructValue, TupleStructValue, TupleValue, Value, VariantFields};

fn text(s: &str) -> String {
    s.to_owned()
}

fn struct_value(fields: Vec<(&str, Value)>) -> Value {
    Value::StructValue(Box::new(StructValue {
        fields: fields.into_iter().map(|(k, v)| (text(k), v)).collect(),
    }))
}

struct A;
struct B;
struct C;
struct Foo;
struct FooTuple;
struct User;
struct Company;
struct Country;
struct CountryList;

impl Typed for B {
    fn build(graph: &mut TypeGraph) -> NodeId {
        let id = NodeId::new("B");
        if graph.begin_node(id) {
            let c = NamedFieldNode::new("c", bool::build(graph), &[], &[]);
            graph.finish_node(id, TypeNode::Struct(StructNode::new("B", vec![c], &[], &[])));
        }
        id
    }
}

impl Typed for C {
    fn build(graph: &mut TypeGraph) -> NodeId {
        let id = NodeId::new("C");
        if graph.begin_node(id) {
            let d = NamedFieldNode::new("d", String::build(graph), &[], &[]);
            let v = VariantNode::Struct(StructVariantNode::new("C", vec![d], &[], &[]));
            graph.finish_node(id, TypeNode::Enum(EnumNode::new("C", vec![v], &[], &[])));
        }
        id
    }
}

impl Typed for A {
    fn build(graph: &mut TypeGraph) -> NodeId {
        let id = NodeId::new("A");
        if graph.begin_node(id) {
            let a = NamedFieldNode::new("a", i32::build(graph), &[], &[]);
            let b = NamedFieldNode::new("b", B::build(graph), &[], &[]);
            let c = NamedFieldNode::new("c", C::build(graph), &[], &[]);
            let map_id = NodeId::new("BTreeMap<String, u32>");
            if graph.begin_node(map_id) {
                let k = String::build(graph);
                let v = u32::build(graph);
                graph.finish_node(map_id, TypeNode::Dict(MapNode::new("BTreeMap<String, u32>", k, v)));
            }
            let d = NamedFieldNode::new("d", map_id, &[], &[]);
            let f32_id = NodeId::new("f32");
            if graph.begin_node(f32_id) {
                graph.finish_node(f32_id, TypeNode::Scalar(ScalarNode::F32));
            }
            let list_id = NodeId::new("Vec<f32>");
            if graph.begin_node(list_id) {
                graph.finish_node(list_id, TypeNode::List(ListNode::new("Vec<f32>", f32_id)));
            }
            let e = NamedFieldNode::new("e", list_id, &[], &[]);
            graph.finish_node(id, TypeNode::Struct(StructNode::new("A", vec![a, b, c, d, e], &[], &[])));
        }
        id
    }
}

fn sample_a() -> Value {
    struct_value(vec![
        ("a", Value::I32(42)),
        ("b", struct_value(vec![("c", Value::Bool(true))])),
        (
            "c",
            Value::EnumValue(Box::new(EnumValue {
                variant: text("C"),
                fields: VariantFields::Struct(StructValue { fields: vec![(text("d"), Value::Str(text("foo")))] }),
            })),
        ),
        ("d", Value::Dict(vec![(Value::Str(text("fourtytwo")), Value::U32(42))])),
        (
            "e",
            Value::List(vec![
                Value::F32(1.0f32.to_bits()),
                Value::F32(2.0f32.to_bits()),
                Value::F32(3.0f32.to_bits()),
            ]),
        ),
    ])
}

fn get_f32(v: Option<&Value>) -> Option<f32> {
    match v {
        Some(Value::F32(bits)) => Some(f32::from_bits(*bits)),
        _ => None,
    }
}

#[test]
#[allow(clippy::bool_assert_comparison)]
fn works() {
    let mut a = sample_a();

    assert!(value_at(&a, &KeyPath::new()).is_some());
    assert_eq!(value_at(&a, &KeyPath::new().field("a")), Some(&Value::I32(42)));
    assert_eq!(value_at(&a, &KeyPath::new().field("b").field("c")), Some(&Value::Bool(true)));
    assert_eq!(
        value_at(&a, &KeyPath::new().field("c").variant("C").field("d")),
        Some(&Value::Str(text("foo")))
    );
    assert!(value_at(&a, &KeyPath::new().field("c").variant("DoesntExist")).is_none());
    assert_eq!(
        value_at(&a, &KeyPath::new().field("d").get(Value::Str(text("fourtytwo")))),
        Some(&Value::U32(42))
    );

    assert_eq!(get_f32(value_at(&a, &KeyPath::new().field("e").get(Value::I32(0)))), Some(1.0));
    assert_eq!(get_f32(value_at(&a, &KeyPath::new().field("e").get(Value::I32(1)))), Some(2.0));
    assert_eq!(get_f32(value_at(&a, &KeyPath::new().field("e").get(Value::I32(2)))), Some(3.0));
    assert!(value_at(&a, &KeyPath::new().field("e").get(Value::I32(3))).is_none());

    let b_c = KeyPath::new().field("b").field("c");
    assert_eq!(value_at(&a, &b_c), Some(&Value::Bool(true)));
    assert!(a.set_at(&b_c, Value::Bool(false)));
    assert_eq!(value_at(&a, &b_c), Some(&Value::Bool(false)));
}

#[test]
fn display() {
    let path = KeyPath::new()
        .field("a")
        .position(0)
        .field("b")
        .field("c")
        .get(Value::I32(1))
        .get(Value::Str(text("foo")))
        .variant("D")
        .field("e")
        .get(Value::I32(3));
    assert_eq!(path.to_string(), ".a.0.b.c[1][\"foo\"]::D.e[3]");
}

impl Typed for Country {
    fn build(graph: &mut TypeGraph) -> NodeId {
        let id = NodeId::new("Country");
        if graph.begin_node(id) {
            let name = NamedFieldNode::new("name", String::build(graph), &[], &[]);
            graph.finish_node(id, TypeNode::Struct(StructNode::new("Country", vec![name], &[], &[])));
        }
        id
    }
}

impl Typed for CountryList {
    fn build(graph: &mut TypeGraph) -> NodeId {
        let id = NodeId::new("Vec<Country>");
        if graph.begin_node(id) {
            let element = Country::build(graph);
            graph.finish_node(id, TypeNode::List(ListNode::new("Vec<Country>", element)));
        }
        id
    }
}

impl Typed for Company {
    fn build(graph: &mut TypeGraph) -> NodeId {
        let id = NodeId::new("Company");
        if graph.begin_node(id) {
            let countries = NamedFieldNode::new("countries", CountryList::build(graph), &[], &[]);
            graph.finish_node(id, TypeNode::Struct(StructNode::new("Company", vec![countries], &[], &[])));
        }
        id
    }
}

impl Typed for User {
    fn build(graph: &mut TypeGraph) -> NodeId {
        let id = NodeId::new("User");
        if graph.begin_node(id) {
            let employer = NamedFieldNode::new("employer", Company::build(graph), &[], &[]);
            graph.finish_node(id, TypeNode::Struct(StructNode::new("User", vec![employer], &[], &[])));
        }
        id
    }
}

fn scalar_at(info: &TypeRoot, path: &KeyPath) -> Option<ScalarNode> {
    match info.type_at(path) {
        Some(TypeAtPath::Type(id)) => match info.graph.try_get(id) {
            Some(TypeNode::Scalar(s)) => Some(*s),
            _ => None,
        },
        _ => None,
    }
}

#[test]
fn query_type_info_struct() {
    let user = struct_value(vec![(
        "employer",
        struct_value(vec![(
            "countries",
            Value::List(vec![struct_value(vec![("name", Value::Str(text("Denmark")))])]),
        )]),
    )]);

    let key_path = KeyPath::new().field("employer").field("countries").get(Value::I32(0)).field("name");

    assert_eq!(value_at(&user, &key_path), Some(&Value::Str(text("Denmark"))));

    let type_info = type_info::<User>();

    assert_eq!(scalar_at(&type_info, &key_path), Some(ScalarNode::Str));
}

impl Typed for Foo {
    fn build(graph: &mut TypeGraph) -> NodeId {
        let id = NodeId::new("Foo");
        if graph.begin_node(id) {
            let a = NamedFieldNode::new("a", String::build(graph), &[], &[]);
            let b = UnnamedFieldNode::new(i32::build(graph), &[], &[]);
            let variants = vec![
                VariantNode::Struct(StructVariantNode::new("A", vec![a], &[], &[])),
                VariantNode::Tuple(TupleVariantNode::new("B", vec![b], &[], &[])),
                VariantNode::Unit(UnitVariantNode::new("C", &[], &[])),
            ];
            graph.finish_node(id, TypeNode::Enum(EnumNode::new("Foo", variants, &[], &[])));
        }
        id
    }
}

#[test]
fn query_type_info_enum() {
    let info = type_info::<Foo>();

    assert_eq!(scalar_at(&info, &KeyPath::new().variant("A").field("a")), Some(ScalarNode::Str));

    assert_eq!(scalar_at(&info, &KeyPath::new().variant("B").position(0)), Some(ScalarNode::I32));

    assert!(info.type_at(&KeyPath::new().variant("B").get(Value::I32(0))).is_none());

    let variant = match info.type_at(&KeyPath::new().variant("C")) {
        Some(TypeAtPath::Variant(id, j)) => match info.graph.try_get(id) {
            Some(TypeNode::Enum(e)) => e.variants[j].name().clone(),
            _ => panic!("not an enum"),
        },
        _ => panic!("not a variant"),
    };

    assert_eq!(variant, "C");
}

impl Typed for FooTuple {
    fn build(graph: &mut TypeGraph) -> NodeId {
        let id = NodeId::new("FooTuple");
        if graph.begin_node(id) {
            let f0 = UnnamedFieldNode::new(i32::build(graph), &[], &[]);
            let f1 = UnnamedFieldNode::new(bool::build(graph), &[], &[]);
            graph.finish_node(id, TypeNode::TupleStruct(TupleStructNode::new("Foo", vec![f0, f1], &[], &[])));
        }
        id
    }
}

#[test]
fn select_tuple_field() {
    let foo = Value::TupleStructValue(TupleStructValue::new().with_field(Value::I32(42)).with_field(Value::Bool(true)));

    assert_eq!(value_at(&foo, &KeyPath::new().position(0)), Some(&Value::I32(42)));
    assert_eq!(value_at(&foo, &KeyPath::new().position(1)), Some(&Value::Bool(true)));

    let info = type_info::<FooTuple>();
    assert_eq!(scalar_at(&info, &KeyPath::new().position(0)), Some(ScalarNode::I32));
    assert_eq!(scalar_at(&info, &KeyPath::new().position(1)), Some(ScalarNode::Bool));
}

#[test]
fn map_field_lookup() {
    let v = struct_value(vec![("d", Value::Dict(vec![(Value::Str(text("x")), Value::U32(42))]))]);
    assert_eq!(value_at(&v, &KeyPath::new().field("d").get(Value::Str(text("x")))), Some(&Value::U32(42)));
    assert!(value_at(&v, &KeyPath::new().field("d").get(Value::Str(text("y")))).is_none());
}

#[test]
fn list_field_lookup() {
    let v = struct_value(vec![(
        "e",
        Value::List(vec![Value::F32(1.0f32.to_bits()), Value::F32(2.0f32.to_bits()), Value::F32(3.0f32.to_bits())]),
    )]);
    assert_eq!(get_f32(value_at(&v, &KeyPath::new().field("e").get(Value::I32(2)))), Some(3.0));
    assert!(value_at(&v, &KeyPath::new().field("e").get(Value::I32(3))).is_none());
}

#[test]
fn non_index_into_list_type_is_absent() {
    let info = type_info::<User>();
    let path = KeyPath::new().field("employer").field("countries").get(Value::Str(text("0")));
    assert!(info.type_at(&path).is_none());
}

#[test]
fn value_and_type_walks_agree_on_struct() {
    let a = sample_a();
    let info = type_info::<A>();
    let path = KeyPath::new().field("b").field("c");
    assert_eq!(value_at(&a, &path), Some(&Value::Bool(true)));
    assert_eq!(scalar_at(&info, &path), Some(ScalarNode::Bool));
    let path = KeyPath::new().field("c").variant("C").field("d");
    assert!(value_at(&a, &path).is_some());
    assert_eq!(scalar_at(&info, &path), Some(ScalarNode::Str));
    let path = KeyPath::new().field("d").get(Value::Str(text("fourtytwo")));
    assert_eq!(scalar_at(&info, &path), Some(ScalarNode::U32));
    assert_eq!(type_at(&info.graph, info.root, &KeyPath::new().field("zz")), None);
}

#[test]
fn field_on_enum_needs_variant_selector() {
    let a = sample_a();
    assert!(value_at(&a, &KeyPath::new().field("c").field("d")).is_none());
}

#[test]
fn key_enum_is_usable() {
    let mut p = KeyPath::new();
    p.push(Key::Field(NamedOrNumbered::Named(text("x"))));
    p.push(Key::Variant(text("V")));
    assert_eq!(p.to_string(), ".x::V");
    let _ = TupleValue::new();
}
