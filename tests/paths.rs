use mirror_mirror::graph::{
    map_docs, map_metadata, type_info, NamedFieldNode, NodeId, StructNode, TypeGraph, TypeNode, Typed, WithId,
};
use mirror_mirror::key_path::{Key, KeyPath, NamedOrNumbered};
use mirror_mirror::resolve::{same_text, value_at};
use mirror_mirror::value::{StructValue, Value};

#[test]
fn parse_reads_back_the_display_text() {
    let path = KeyPath::new()
        .field("a")
        .position(0)
        .field("b")
        .field("c")
        .get(Value::I32(1))
        .get(Value::Str("fo\"o\\".to_owned()))
        .variant("D")
        .field("e")
        .get(Value::I32(3));
    let text = path.to_string();
    assert_eq!(text, ".a.0.b.c[1][\"fo\\\"o\\\\\"]::D.e[3]");
    let back = KeyPath::parse(&text).unwrap();
    assert_eq!(back.to_string(), text);
    assert_eq!(back.path.len(), 9);
    assert!(matches!(&back.path[1], Key::Field(NamedOrNumbered::Numbered(0))));
    assert!(matches!(&back.path[4], Key::Get(Value::I32(1))));
    assert!(matches!(&back.path[5], Key::Get(Value::Str(x)) if x == "fo\"o\\"));
}

#[test]
fn parse_examples() {
    assert_eq!(KeyPath::parse("").unwrap().path.len(), 0);
    assert_eq!(KeyPath::parse(".x_1::Y.10").unwrap().to_string(), ".x_1::Y.10");
    assert!(KeyPath::parse(".").is_none());
    assert!(KeyPath::parse("a").is_none());
    assert!(KeyPath::parse(".01").is_none());
    assert!(KeyPath::parse("[1").is_none());
    assert!(KeyPath::parse("[\"a]").is_none());
    assert!(KeyPath::parse(":x").is_none());
    assert!(KeyPath::parse(".99999999999999999999999").is_none());
    assert!(KeyPath::parse(".a#").is_none());
}

#[test]
fn display_of_other_literals() {
    let keys = vec![
        Value::I8(-128),
        Value::Bool(true),
        Value::Bool(false),
        Value::U128(u128::MAX),
        Value::Char('c'),
        Value::Char('\''),
        Value::Usize(7),
        Value::I64(-1),
        Value::I128(i128::MIN),
        Value::U8(0),
        Value::I32(-5),
    ];
    let mut p = KeyPath::new();
    for k in keys {
        p = p.get(k);
    }
    let text = p.to_string();
    assert_eq!(
        text,
        "[-128i8][true][false][340282366920938463463374607431768211455u128]['c']['\\'']\
         [7usize][-1i64][-170141183460469231731687303715884105728i128][0u8][-5]"
    );
    let back = KeyPath::parse(&text).unwrap();
    assert_eq!(back.path.len(), p.path.len());
    for (a, b) in back.path.iter().zip(p.path.iter()) {
        match (a, b) {
            (Key::Get(x), Key::Get(y)) => assert_eq!(x, y),
            _ => panic!("expected index keys"),
        }
    }
    let floats = KeyPath::new().get(Value::F32(0));
    assert_eq!(floats.to_string(), "[?]");
    assert!(KeyPath::parse("[?]").is_none());
    assert!(KeyPath::parse("[300u8]").is_none());
    assert!(KeyPath::parse("[-1u8]").is_none());
    assert!(KeyPath::parse("[1x8]").is_none());
    assert!(KeyPath::parse("[tru]").is_none());
}

struct Node;
struct OptionNode;
struct Tree;

impl Typed for OptionNode {
    fn build(graph: &mut TypeGraph) -> NodeId {
        let id = NodeId::new("Option<Box<Node>>");
        if graph.begin_node(id) {
            let inner = Box::<Node>::build(graph);
            graph.finish_node(id, TypeNode::List(mirror_mirror::graph::ListNode::new("Option<Box<Node>>", inner)));
        }
        id
    }
}

impl Typed for Node {
    fn build(graph: &mut TypeGraph) -> NodeId {
        let id = NodeId::new("Node");
        if graph.begin_node(id) {
            let next = NamedFieldNode::new("next", OptionNode::build(graph), &[], &[]);
            graph.finish_node(id, TypeNode::Struct(StructNode::new("Node", vec![next], &[], &[])));
        }
        id
    }
}

#[test]
fn self_referential_type_is_described_once() {
    let info = type_info::<Node>();
    assert_eq!(info.graph.map.len(), 2);
    assert!(info.graph.map.values().all(|n| n.is_some()));
    let again = Node::build(&mut TypeGraph::new());
    assert_eq!(again, info.root);
    match info.graph.get(info.root) {
        TypeNode::Struct(s) => {
            let opt = s.fields[0].id;
            match info.graph.get(opt) {
                TypeNode::List(l) => assert_eq!(l.field_type_id, info.root),
                _ => panic!("expected the optional node"),
            }
        },
        _ => panic!("expected a struct"),
    }
}

impl Typed for Tree {
    fn build(graph: &mut TypeGraph) -> NodeId {
        graph.get_or_build_node_with(NodeId::new("Tree"), |graph| {
            let children = NodeId::new("Vec<Tree>");
            graph.get_or_build_node_with(children, |graph| {
                TypeNode::List(mirror_mirror::graph::ListNode::new("Vec<Tree>", Tree::build(graph)))
            });
            let field = NamedFieldNode::new("children", children, &[], &[]);
            TypeNode::Struct(StructNode::new("Tree", vec![field], &[], &[]))
        })
    }
}

#[test]
fn get_or_build_describes_a_recursive_type_once() {
    let info = type_info::<Tree>();
    assert_eq!(info.graph.map.len(), 2);
    assert!(info.graph.map.values().all(|n| n.is_some()));
    let mut graph = info.graph;
    let before = graph.map.len();
    assert_eq!(Tree::build(&mut graph), info.root);
    assert_eq!(graph.map.len(), before);
    let path = KeyPath::new().field("children").get(Value::Usize(0)).field("children");
    let t = mirror_mirror::resolve::type_at(&graph, info.root, &path);
    assert_eq!(t, Some(mirror_mirror::resolve::TypeAtPath::Type(NodeId::new("Vec<Tree>"))));
}

#[test]
fn dynamic_values_are_opaque_types() {
    let info = type_info::<Value>();
    assert!(matches!(info.graph.get(info.root), TypeNode::Opaque(o) if o.name_of_type == "Value"));
    let info = type_info::<mirror_mirror::value::TupleStructValue>();
    assert!(matches!(info.graph.get(info.root), TypeNode::Opaque(_)));
    let boxed = type_info::<Box<u8>>();
    let plain = type_info::<u8>();
    assert_eq!(boxed.root, plain.root);
}

#[test]
fn begin_node_reserves_once() {
    let mut g = TypeGraph::new();
    let id = NodeId::new("T");
    assert!(g.begin_node(id));
    assert!(g.try_get(id).is_none());
    assert!(!g.begin_node(id));
    g.finish_node(id, TypeNode::Scalar(mirror_mirror::graph::ScalarNode::U8));
    assert!(!g.begin_node(id));
    assert!(g.try_get(id).is_some());
    assert_eq!(g.map.len(), 1);
}

#[test]
fn constructors_copy_names_docs_and_metadata() {
    let docs = map_docs(&["first", "second"]);
    assert_eq!(docs, vec!["first".to_owned(), "second".to_owned()]);
    let meta = map_metadata(&[("k", Value::U8(1))]);
    assert_eq!(meta, vec![("k".to_owned(), Value::U8(1))]);
    let id = u8::build(&mut TypeGraph::new());
    let a = NamedFieldNode::new("a", id, &[], &["doc"]);
    let b = NamedFieldNode::new("b", id, &[("m", Value::Bool(true))], &[]);
    let node = StructNode::new("S", vec![a, b], &[], &["a struct"]);
    assert_eq!(node.field_names, vec!["a".to_owned(), "b".to_owned()]);
    assert_eq!(node.fields[1].metadata[0].0, "m");
    assert_eq!(node.docs, vec!["a struct".to_owned()]);
    let w = WithId::new(id, 5u8);
    assert_eq!(*w.get(), 5);
    assert_eq!(w.id, id);
}

#[test]
fn set_at_writes_where_the_path_leads() {
    let mut v = Value::StructValue(Box::new(StructValue {
        fields: vec![("a".to_owned(), Value::List(vec![Value::U8(1), Value::U8(2)]))],
    }));
    let p = KeyPath::new().field("a").get(Value::Usize(1));
    assert!(v.set_at(&p, Value::U8(9)));
    assert_eq!(value_at(&v, &p), Some(&Value::U8(9)));
    let missing = KeyPath::new().field("a").get(Value::Usize(5));
    let before = v.to_value();
    assert!(!v.set_at(&missing, Value::U8(0)));
    assert_eq!(v, before);
    assert!(same_text("abc", "abc"));
    assert!(!same_text("abc", "abd"));
}

#[test]
fn list_index_of_any_integer_kind() {
    let v = Value::List(vec![Value::U8(10), Value::U8(11)]);
    assert_eq!(value_at(&v, &KeyPath::new().get(Value::I32(1))), Some(&Value::U8(11)));
    assert_eq!(value_at(&v, &KeyPath::new().get(Value::U64(0))), Some(&Value::U8(10)));
    assert!(value_at(&v, &KeyPath::new().get(Value::I8(-1))).is_none());
    assert!(value_at(&v, &KeyPath::new().get(Value::Bool(true))).is_none());
}

#[test]
fn type_checked_access() {
    let v = Value::StructValue(Box::new(StructValue { fields: vec![("a".to_owned(), Value::I32(42))] }));
    let p = KeyPath::new().field("a");
    let i32_kind = Value::I32(0).kind_index();
    assert_eq!(mirror_mirror::resolve::get_at(&v, &p, i32_kind), Some(&Value::I32(42)));
    assert!(mirror_mirror::resolve::get_at(&v, &p, Value::Bool(false).kind_index()).is_none());
    assert!(mirror_mirror::resolve::get_at(&v, &KeyPath::new().field("b"), i32_kind).is_none());
}

#[test]
fn scalar_builders_give_scalar_nodes() {
    let mut g = TypeGraph::new();
    let s = String::build(&mut g);
    let i = i32::build(&mut g);
    assert!(matches!(g.get(s), TypeNode::Scalar(mirror_mirror::graph::ScalarNode::Str)));
    assert!(matches!(g.get(i), TypeNode::Scalar(mirror_mirror::graph::ScalarNode::I32)));
    assert_eq!(g.map.len(), 2);
}

#[test]
fn dynamic_type_descriptions() {
    let v = mirror_mirror::graph::value_type_info();
    assert_eq!(v.graph.map.len(), 1);
    assert!(matches!(v.graph.get(v.root), TypeNode::Opaque(o) if o.name_of_type == "Value" && o.metadata.is_empty()));
    let t = mirror_mirror::graph::tuple_struct_value_type_info();
    assert!(matches!(t.graph.get(t.root), TypeNode::Opaque(o) if o.name_of_type == "TupleStructValue"));
}
