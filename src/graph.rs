//! The type graph: node descriptions keyed by type identity, built once per type.
use vstd::prelude::*;
use std::collections::BTreeMap;
use std::hash::Hash;
use std::hash::Hasher;
use crate::value::{Value, TupleStructValue};

verus! {

/// Identity of a type within a graph.
#[derive(Clone, Copy, PartialEq, Eq, Structural, Debug, Hash, PartialOrd, Ord)]
pub struct NodeId(pub u64);

/// Relies on `ahash::AHasher::default()`: hashes a type's name with the hasher's
/// keys for this process. Nothing is promised of the hash itself.
#[verifier::external_body]
fn hash_name_of_type(name: &str) -> u64 {
    let mut hasher = ahash::AHasher::default();
    name.hash(&mut hasher);
    hasher.finish()
}

impl NodeId {
    /// The identity of the type with the given name. Names must tell types
    /// apart (write full paths): two types with one name share an id, and
    /// the graph then holds one description for both.
    pub fn new(name_of_type: &str) -> NodeId {
        NodeId(hash_name_of_type(name_of_type))
    }
}

/// A value paired with the identity of the node it was read from.
#[derive(Clone, Copy, Debug)]
pub struct WithId<T> {
    pub id: NodeId,
    pub inner: T,
}

impl<T> WithId<T> {
    pub fn new(id: NodeId, inner: T) -> (r: WithId<T>)
        ensures
            r.id == id,
            r.inner == inner,
    {
        WithId { id, inner }
    }

    pub fn get(&self) -> (r: &T)
        ensures
            *r == self.inner,
    {
        &self.inner
    }
}

/// The registry of type descriptions. Each id is absent, reserved (`None`:
/// being built) or resolved (`Some`). Entries are only ever added or resolved.
#[derive(Debug)]
pub struct TypeGraph {
    pub map: BTreeMap<u64, Option<TypeNode>>,
}

#[derive(Debug)]
pub enum TypeNode {
    Struct(StructNode),
    TupleStruct(TupleStructNode),
    Tuple(TupleNode),
    Enum(EnumNode),
    List(ListNode),
    Array(ArrayNode),
    Dict(MapNode),
    Scalar(ScalarNode),
    Opaque(OpaqueNode),
}

#[derive(Debug)]
pub struct StructNode {
    pub name_of_type: String,
    pub fields: Vec<NamedFieldNode>,
    pub field_names: Vec<String>,
    pub metadata: Vec<(String, Value)>,
    pub docs: Vec<String>,
}

#[derive(Debug)]
pub struct TupleStructNode {
    pub name_of_type: String,
    pub fields: Vec<UnnamedFieldNode>,
    pub metadata: Vec<(String, Value)>,
    pub docs: Vec<String>,
}

#[derive(Debug)]
pub struct EnumNode {
    pub name_of_type: String,
    pub variants: Vec<VariantNode>,
    pub metadata: Vec<(String, Value)>,
    pub docs: Vec<String>,
}

#[derive(Debug)]
pub enum VariantNode {
    Struct(StructVariantNode),
    Tuple(TupleVariantNode),
    Unit(UnitVariantNode),
}

#[derive(Debug)]
pub struct StructVariantNode {
    pub name: String,
    pub fields: Vec<NamedFieldNode>,
    pub field_names: Vec<String>,
    pub metadata: Vec<(String, Value)>,
    pub docs: Vec<String>,
}

#[derive(Debug)]
pub struct TupleVariantNode {
    pub name: String,
    pub fields: Vec<UnnamedFieldNode>,
    pub metadata: Vec<(String, Value)>,
    pub docs: Vec<String>,
}

#[derive(Debug)]
pub struct UnitVariantNode {
    pub name: String,
    pub metadata: Vec<(String, Value)>,
    pub docs: Vec<String>,
}

#[derive(Debug)]
pub struct TupleNode {
    pub name_of_type: String,
    pub fields: Vec<UnnamedFieldNode>,
    pub metadata: Vec<(String, Value)>,
    pub docs: Vec<String>,
}

#[derive(Debug)]
pub struct NamedFieldNode {
    pub name: String,
    pub id: NodeId,
    pub metadata: Vec<(String, Value)>,
    pub docs: Vec<String>,
}

#[derive(Debug)]
pub struct UnnamedFieldNode {
    pub id: NodeId,
    pub metadata: Vec<(String, Value)>,
    pub docs: Vec<String>,
}

#[derive(Debug)]
pub struct ArrayNode {
    pub name_of_type: String,
    pub field_type_id: NodeId,
    pub len: usize,
}

#[derive(Debug)]
pub struct ListNode {
    pub name_of_type: String,
    pub field_type_id: NodeId,
}

#[derive(Debug)]
pub struct MapNode {
    pub name_of_type: String,
    pub key_type_id: NodeId,
    pub value_type_id: NodeId,
}

#[derive(Clone, Copy, PartialEq, Eq, Structural, Debug)]
pub enum ScalarNode {
    Usize,
    U8,
    U16,
    U32,
    U64,
    U128,
    I8,
    I16,
    I32,
    I64,
    I128,
    Bool,
    Char,
    F32,
    F64,
    Str,
}

#[derive(Debug)]
pub struct OpaqueNode {
    pub name_of_type: String,
    pub metadata: Vec<(String, Value)>,
}

impl VariantNode {
    pub open spec fn spec_name(&self) -> Seq<char> {
        match self {
            VariantNode::Struct(s) => s.name@,
            VariantNode::Tuple(t) => t.name@,
            VariantNode::Unit(u) => u.name@,
        }
    }

    /// The variant's name.
    pub fn name(&self) -> (r: &String)
        ensures
            r@ == self.spec_name(),
    {
        match self {
            VariantNode::Struct(s) => &s.name,
            VariantNode::Tuple(t) => &t.name,
            VariantNode::Unit(u) => &u.name,
        }
    }
}

impl TypeGraph {
    pub open spec fn is_reserved(&self, id: NodeId) -> bool {
        self.map@.contains_key(id.0) && self.map@[id.0] is None
    }

    pub open spec fn is_resolved(&self, id: NodeId) -> bool {
        self.map@.contains_key(id.0) && self.map@[id.0] is Some
    }

    /// The node of a resolved id.
    pub open spec fn node(&self, id: NodeId) -> TypeNode {
        self.map@[id.0].unwrap()
    }

    pub fn new() -> (r: TypeGraph)
        ensures
            r.map@ == Map::<u64, Option<TypeNode>>::empty(),
    {
        TypeGraph { map: BTreeMap::new() }
    }

    /// The node of an id whose description is complete. Asking for any
    /// other id is a bug in the code that built the graph.
    pub fn get(&self, id: NodeId) -> (r: &TypeNode)
        requires
            self.is_resolved(id),
        ensures
            *r == self.node(id),
    {
        self.map.get(&id.0).unwrap().as_ref().unwrap()
    }

    /// The node of an id, if its description is complete.
    pub fn try_get(&self, id: NodeId) -> (r: Option<&TypeNode>)
        ensures
            r matches Some(n) ==> self.is_resolved(id) && *n == self.node(id),
            r is None ==> !self.is_resolved(id),
    {
        match self.map.get(&id.0) {
            Some(Some(n)) => Some(n),
            _ => None,
        }
    }

    /// First step of describing a type: returns whether the caller has to
    /// build the node. An absent id becomes reserved and the answer is `true`;
    /// for a reserved or resolved id nothing changes and the answer is `false`,
    /// so a type that refers to itself is described once.
    pub fn begin_node(&mut self, id: NodeId) -> (build: bool)
        ensures
            build == !old(self).map@.contains_key(id.0),
            final(self).map@ == if build {
                old(self).map@.insert(id.0, None)
            } else {
                old(self).map@
            },
    {
        if self.map.contains_key(&id.0) {
            false
        } else {
            self.map.insert(id.0, None);
            true
        }
    }

    /// Describes a type once, safely for types that contain themselves. Where
    /// `id` is absent it is reserved first; `build` then runs on the graph with
    /// `id` reserved, so a request for `id` made while building (a recursive
    /// type) returns `id` at once and changes nothing; the node that `build`
    /// returns is stored as the one entry for `id`. Where `id` is present,
    /// nothing is built and the graph is unchanged.
    pub fn get_or_build_node_with<F>(&mut self, id: NodeId, build: F) -> (r: NodeId)
        where
            F: FnOnce(&mut TypeGraph) -> TypeNode,
        requires
            forall|g: &mut TypeGraph| #[trigger] build.requires((g,)),
            forall|g: &mut TypeGraph, n: TypeNode| #[trigger] build.ensures((g,), n) ==> grows(
                g.map@,
                final(g).map@,
            ),
        ensures
            r == id,
            grows(old(self).map@, final(self).map@),
            final(self).map@.contains_key(id.0),
            old(self).map@.contains_key(id.0) ==> final(self).map@ == old(self).map@,
            !old(self).map@.contains_key(id.0) ==> final(self).is_resolved(id),
            !old(self).map@.contains_key(id.0) ==> exists|g: &mut TypeGraph, n: TypeNode|
                #[trigger] build.ensures((g,), n) && g.is_reserved(id) && final(self).map@[id.0]
                    == Some(n),
    {
        if self.begin_node(id) {
            let ghost reserved = self.map@;
            let node = build(self);
            assert(grows(reserved, self.map@));
            let ghost built = self.map@;
            self.map.insert(id.0, Some(node));
            assert forall|k: u64| #[trigger] old(self).map@.contains_key(k) implies self.map@.contains_key(k)
                && (old(self).map@[k] is Some ==> self.map@[k] == old(self).map@[k]) by {
                assert(reserved.contains_key(k));
                assert(built.contains_key(k));
            }
        }
        id
    }

    /// Last step of describing a type: a reserved id becomes resolved.
    pub fn finish_node(&mut self, id: NodeId, node: TypeNode)
        requires
            old(self).is_reserved(id),
        ensures
            final(self).map@ == old(self).map@.insert(id.0, Some(node)),
    {
        self.map.insert(id.0, Some(node));
    }
}


/// Owned copies of documentation strings, in order.
pub fn map_docs(docs: &[&str]) -> (r: Vec<String>)
    ensures
        copies_docs(r@, docs@),
{
    let mut out: Vec<String> = Vec::new();
    let mut i: usize = 0;
    while i < docs.len()
        invariant
            i <= docs.len(),
            out.len() == i,
            forall|j: int| 0 <= j < i ==> out[j]@ == docs@[j]@,
        decreases docs.len() - i,
    {
        out.push(docs[i].to_owned());
        i = i + 1;
    }
    out
}

/// Metadata with owned keys; each value is copied.
pub fn map_metadata(metadata: &[(&str, Value)]) -> (r: Vec<(String, Value)>)
    ensures
        copies_metadata(r@, metadata@),
{
    let mut out: Vec<(String, Value)> = Vec::new();
    let mut i: usize = 0;
    while i < metadata.len()
        invariant
            i <= metadata.len(),
            out.len() == i,
            forall|j: int|
                0 <= j < i ==> out[j].0@ == metadata@[j].0@ && out[j].1@ == metadata@[j].1@,
        decreases metadata.len() - i,
    {
        out.push((metadata[i].0.to_owned(), metadata[i].1.to_value()));
        i = i + 1;
    }
    out
}

pub open spec fn copies_docs(out: Seq<String>, docs: Seq<&str>) -> bool {
    out.len() == docs.len() && forall|j: int| 0 <= j < docs.len() ==> out[j]@ == docs[j]@
}

pub open spec fn copies_metadata(out: Seq<(String, Value)>, metadata: Seq<(&str, Value)>) -> bool {
    out.len() == metadata.len() && forall|j: int|
        0 <= j < metadata.len() ==> out[j].0@ == metadata[j].0@ && out[j].1@ == metadata[j].1@
}

/// The names of named fields, in order.
pub open spec fn names_match(names: Seq<String>, fields: Seq<NamedFieldNode>) -> bool {
    names.len() == fields.len() && forall|j: int| 0 <= j < fields.len() ==> names[j]@ == fields[j].name@
}

fn field_names_of(fields: &Vec<NamedFieldNode>) -> (r: Vec<String>)
    ensures
        names_match(r@, fields@),
{
    let mut out: Vec<String> = Vec::new();
    let mut i: usize = 0;
    while i < fields.len()
        invariant
            i <= fields.len(),
            out.len() == i,
            forall|j: int| 0 <= j < i ==> out[j]@ == fields[j].name@,
        decreases fields.len() - i,
    {
        out.push(fields[i].name.clone());
        i = i + 1;
    }
    out
}

impl StructNode {
    pub fn new(name: &str, fields: Vec<NamedFieldNode>, metadata: &[(&str, Value)], docs: &[&str]) -> (r: StructNode)
        ensures
            r.name_of_type@ == name@,
            r.fields == fields,
            names_match(r.field_names@, fields@),
            copies_metadata(r.metadata@, metadata@),
            copies_docs(r.docs@, docs@),
    {
        let field_names = field_names_of(&fields);
        StructNode {
            name_of_type: name.to_owned(),
            fields,
            field_names,
            metadata: map_metadata(metadata),
            docs: map_docs(docs),
        }
    }
}

impl TupleStructNode {
    pub fn new(name: &str, fields: Vec<UnnamedFieldNode>, metadata: &[(&str, Value)], docs: &[&str]) -> (r: TupleStructNode)
        ensures
            r.name_of_type@ == name@,
            r.fields == fields,
            copies_metadata(r.metadata@, metadata@),
            copies_docs(r.docs@, docs@),
    {
        TupleStructNode {
            name_of_type: name.to_owned(),
            fields,
            metadata: map_metadata(metadata),
            docs: map_docs(docs),
        }
    }
}

impl TupleNode {
    pub fn new(name: &str, fields: Vec<UnnamedFieldNode>, metadata: &[(&str, Value)], docs: &[&str]) -> (r: TupleNode)
        ensures
            r.name_of_type@ == name@,
            r.fields == fields,
            copies_metadata(r.metadata@, metadata@),
            copies_docs(r.docs@, docs@),
    {
        TupleNode {
            name_of_type: name.to_owned(),
            fields,
            metadata: map_metadata(metadata),
            docs: map_docs(docs),
        }
    }
}

impl EnumNode {
    pub fn new(name: &str, variants: Vec<VariantNode>, metadata: &[(&str, Value)], docs: &[&str]) -> (r: EnumNode)
        ensures
            r.name_of_type@ == name@,
            r.variants == variants,
            copies_metadata(r.metadata@, metadata@),
            copies_docs(r.docs@, docs@),
    {
        EnumNode {
            name_of_type: name.to_owned(),
            variants,
            metadata: map_metadata(metadata),
            docs: map_docs(docs),
        }
    }
}

impl StructVariantNode {
    pub fn new(name: &str, fields: Vec<NamedFieldNode>, metadata: &[(&str, Value)], docs: &[&str]) -> (r: StructVariantNode)
        ensures
            r.name@ == name@,
            r.fields == fields,
            names_match(r.field_names@, fields@),
            copies_metadata(r.metadata@, metadata@),
            copies_docs(r.docs@, docs@),
    {
        let field_names = field_names_of(&fields);
        StructVariantNode {
            name: name.to_owned(),
            fields,
            field_names,
            metadata: map_metadata(metadata),
            docs: map_docs(docs),
        }
    }
}

impl TupleVariantNode {
    pub fn new(name: &str, fields: Vec<UnnamedFieldNode>, metadata: &[(&str, Value)], docs: &[&str]) -> (r: TupleVariantNode)
        ensures
            r.name@ == name@,
            r.fields == fields,
            copies_metadata(r.metadata@, metadata@),
            copies_docs(r.docs@, docs@),
    {
        TupleVariantNode {
            name: name.to_owned(),
            fields,
            metadata: map_metadata(metadata),
            docs: map_docs(docs),
        }
    }
}

impl UnitVariantNode {
    pub fn new(name: &str, metadata: &[(&str, Value)], docs: &[&str]) -> (r: UnitVariantNode)
        ensures
            r.name@ == name@,
            copies_metadata(r.metadata@, metadata@),
            copies_docs(r.docs@, docs@),
    {
        UnitVariantNode { name: name.to_owned(), metadata: map_metadata(metadata), docs: map_docs(docs) }
    }
}

impl NamedFieldNode {
    /// A named field whose type has the given id in the graph.
    pub fn new(name: &str, id: NodeId, metadata: &[(&str, Value)], docs: &[&str]) -> (r: NamedFieldNode)
        ensures
            r.name@ == name@,
            r.id == id,
            copies_metadata(r.metadata@, metadata@),
            copies_docs(r.docs@, docs@),
    {
        NamedFieldNode { name: name.to_owned(), id, metadata: map_metadata(metadata), docs: map_docs(docs) }
    }
}

impl UnnamedFieldNode {
    /// A positional field whose type has the given id in the graph.
    pub fn new(id: NodeId, metadata: &[(&str, Value)], docs: &[&str]) -> (r: UnnamedFieldNode)
        ensures
            r.id == id,
            copies_metadata(r.metadata@, metadata@),
            copies_docs(r.docs@, docs@),
    {
        UnnamedFieldNode { id, metadata: map_metadata(metadata), docs: map_docs(docs) }
    }
}

impl ArrayNode {
    pub fn new(name: &str, field_type_id: NodeId, len: usize) -> (r: ArrayNode)
        ensures
            r.name_of_type@ == name@,
            r.field_type_id == field_type_id,
            r.len == len,
    {
        ArrayNode { name_of_type: name.to_owned(), field_type_id, len }
    }
}

impl ListNode {
    pub fn new(name: &str, field_type_id: NodeId) -> (r: ListNode)
        ensures
            r.name_of_type@ == name@,
            r.field_type_id == field_type_id,
    {
        ListNode { name_of_type: name.to_owned(), field_type_id }
    }
}

impl MapNode {
    pub fn new(name: &str, key_type_id: NodeId, value_type_id: NodeId) -> (r: MapNode)
        ensures
            r.name_of_type@ == name@,
            r.key_type_id == key_type_id,
            r.value_type_id == value_type_id,
    {
        MapNode { name_of_type: name.to_owned(), key_type_id, value_type_id }
    }
}

impl OpaqueNode {
    pub fn new(name: &str, metadata: &[(&str, Value)]) -> (r: OpaqueNode)
        ensures
            r.name_of_type@ == name@,
            copies_metadata(r.metadata@, metadata@),
    {
        OpaqueNode { name_of_type: name.to_owned(), metadata: map_metadata(metadata) }
    }
}

/// The graph `new` keeps every id of `old`, and every resolved node of `old`
/// unchanged: a graph only grows.
pub open spec fn grows(old: Map<u64, Option<TypeNode>>, new: Map<u64, Option<TypeNode>>) -> bool {
    forall|k: u64|
        #[trigger] old.contains_key(k) ==> new.contains_key(k) && (old[k] is Some ==> new[k]
            == old[k])
}

/// A type that can describe its shape into a graph, returning its own id,
/// which is then a key of the graph; the graph only grows.
pub trait Typed {
    fn build(graph: &mut TypeGraph) -> (r: NodeId)
        ensures
            final(graph).map@.contains_key(r.0),
            grows(old(graph).map@, final(graph).map@),
    ;
}

/// Describes a type that is shown as an opaque leaf.
pub fn opaque_node(graph: &mut TypeGraph, name: &str) -> (id: NodeId)
    ensures
        old(graph).map@.contains_key(id.0) ==> final(graph).map@ == old(graph).map@,
        !old(graph).map@.contains_key(id.0) ==> {
            &&& final(graph).map@ == old(graph).map@.insert(id.0, Some(final(graph).node(id)))
            &&& final(graph).is_resolved(id)
            &&& final(graph).node(id) matches TypeNode::Opaque(o)
            &&& o.name_of_type@ == name@
            &&& o.metadata@.len() == 0
        },
{
    let id = NodeId::new(name);
    if graph.begin_node(id) {
        graph.finish_node(id, TypeNode::Opaque(OpaqueNode::new(name, &[])));
    }
    id
}

impl Typed for Value {
    /// Described as one opaque node named `Value`, with no metadata.
    fn build(graph: &mut TypeGraph) -> (r: NodeId)
        ensures
            !old(graph).map@.contains_key(r.0) ==> (final(graph).node(r) matches TypeNode::Opaque(o)
                && o.name_of_type@ == "Value"@ && o.metadata@.len() == 0),
            !old(graph).map@.contains_key(r.0) ==> final(graph).is_resolved(r),
            !old(graph).map@.contains_key(r.0) ==> final(graph).map@ == old(graph).map@.insert(
                r.0,
                Some(final(graph).node(r)),
            ),
    {
        opaque_node(graph, "Value")
    }
}

impl Typed for TupleStructValue {
    /// Described as one opaque node named `TupleStructValue`, with no metadata.
    fn build(graph: &mut TypeGraph) -> (r: NodeId)
        ensures
            !old(graph).map@.contains_key(r.0) ==> (final(graph).node(r) matches TypeNode::Opaque(o)
                && o.name_of_type@ == "TupleStructValue"@ && o.metadata@.len() == 0),
            !old(graph).map@.contains_key(r.0) ==> final(graph).is_resolved(r),
            !old(graph).map@.contains_key(r.0) ==> final(graph).map@ == old(graph).map@.insert(
                r.0,
                Some(final(graph).node(r)),
            ),
    {
        opaque_node(graph, "TupleStructValue")
    }
}

impl<T: Typed> Typed for Box<T> {
    /// A box is described as the type it holds.
    fn build(graph: &mut TypeGraph) -> NodeId {
        T::build(graph)
    }
}

/// A graph together with the id of the type it was built for.
pub struct TypeRoot {
    pub root: NodeId,
    pub graph: TypeGraph,
}

/// The description of `Value`'s own type: one opaque node, whatever the value.
pub fn value_type_info() -> (r: TypeRoot)
    ensures
        r.graph.map@.dom() == set![r.root.0],
        r.graph.is_resolved(r.root),
        r.graph.node(r.root) matches TypeNode::Opaque(o) && o.name_of_type@ == "Value"@
            && o.metadata@.len() == 0,
{
    let mut graph = TypeGraph::new();
    let root = <Value as Typed>::build(&mut graph);
    assert(graph.map@.dom() =~= set![root.0]);
    TypeRoot { root, graph }
}

/// The description of `TupleStructValue`'s own type: one opaque node,
/// whatever its fields.
pub fn tuple_struct_value_type_info() -> (r: TypeRoot)
    ensures
        r.graph.map@.dom() == set![r.root.0],
        r.graph.is_resolved(r.root),
        r.graph.node(r.root) matches TypeNode::Opaque(o) && o.name_of_type@ == "TupleStructValue"@
            && o.metadata@.len() == 0,
{
    let mut graph = TypeGraph::new();
    let root = <TupleStructValue as Typed>::build(&mut graph);
    assert(graph.map@.dom() =~= set![root.0]);
    TypeRoot { root, graph }
}

/// Describes `T` into a fresh graph.
pub fn type_info<T: Typed>() -> (r: TypeRoot)
    ensures
        r.graph.map@.contains_key(r.root.0),
{
    let mut graph = TypeGraph::new();
    let root = T::build(&mut graph);
    TypeRoot { root, graph }
}

/// Describes a scalar type: its node is added once, on the first request.
pub fn scalar_node(graph: &mut TypeGraph, name: &str, scalar: ScalarNode) -> (id: NodeId)
    ensures
        final(graph).map@ == if old(graph).map@.contains_key(id.0) {
            old(graph).map@
        } else {
            old(graph).map@.insert(id.0, Some(TypeNode::Scalar(scalar)))
        },
{
    let id = NodeId::new(name);
    if graph.begin_node(id) {
        graph.finish_node(id, TypeNode::Scalar(scalar));
    }
    id
}

impl Typed for usize {
    fn build(graph: &mut TypeGraph) -> (r: NodeId)
        ensures
            !old(graph).map@.contains_key(r.0) ==> final(graph).node(r) == TypeNode::Scalar(
                ScalarNode::Usize,
            ),
            !old(graph).map@.contains_key(r.0) ==> final(graph).is_resolved(r),
    {
        scalar_node(graph, "usize", ScalarNode::Usize)
    }
}

impl Typed for u8 {
    fn build(graph: &mut TypeGraph) -> (r: NodeId)
        ensures
            !old(graph).map@.contains_key(r.0) ==> final(graph).node(r) == TypeNode::Scalar(
                ScalarNode::U8,
            ),
            !old(graph).map@.contains_key(r.0) ==> final(graph).is_resolved(r),
    {
        scalar_node(graph, "u8", ScalarNode::U8)
    }
}

impl Typed for u16 {
    fn build(graph: &mut TypeGraph) -> (r: NodeId)
        ensures
            !old(graph).map@.contains_key(r.0) ==> final(graph).node(r) == TypeNode::Scalar(
                ScalarNode::U16,
            ),
            !old(graph).map@.contains_key(r.0) ==> final(graph).is_resolved(r),
    {
        scalar_node(graph, "u16", ScalarNode::U16)
    }
}

impl Typed for u32 {
    fn build(graph: &mut TypeGraph) -> (r: NodeId)
        ensures
            !old(graph).map@.contains_key(r.0) ==> final(graph).node(r) == TypeNode::Scalar(
                ScalarNode::U32,
            ),
            !old(graph).map@.contains_key(r.0) ==> final(graph).is_resolved(r),
    {
        scalar_node(graph, "u32", ScalarNode::U32)
    }
}

impl Typed for u64 {
    fn build(graph: &mut TypeGraph) -> (r: NodeId)
        ensures
            !old(graph).map@.contains_key(r.0) ==> final(graph).node(r) == TypeNode::Scalar(
                ScalarNode::U64,
            ),
            !old(graph).map@.contains_key(r.0) ==> final(graph).is_resolved(r),
    {
        scalar_node(graph, "u64", ScalarNode::U64)
    }
}

impl Typed for u128 {
    fn build(graph: &mut TypeGraph) -> (r: NodeId)
        ensures
            !old(graph).map@.contains_key(r.0) ==> final(graph).node(r) == TypeNode::Scalar(
                ScalarNode::U128,
            ),
            !old(graph).map@.contains_key(r.0) ==> final(graph).is_resolved(r),
    {
        scalar_node(graph, "u128", ScalarNode::U128)
    }
}

impl Typed for i8 {
    fn build(graph: &mut TypeGraph) -> (r: NodeId)
        ensures
            !old(graph).map@.contains_key(r.0) ==> final(graph).node(r) == TypeNode::Scalar(
                ScalarNode::I8,
            ),
            !old(graph).map@.contains_key(r.0) ==> final(graph).is_resolved(r),
    {
        scalar_node(graph, "i8", ScalarNode::I8)
    }
}

impl Typed for i16 {
    fn build(graph: &mut TypeGraph) -> (r: NodeId)
        ensures
            !old(graph).map@.contains_key(r.0) ==> final(graph).node(r) == TypeNode::Scalar(
                ScalarNode::I16,
            ),
            !old(graph).map@.contains_key(r.0) ==> final(graph).is_resolved(r),
    {
        scalar_node(graph, "i16", ScalarNode::I16)
    }
}

impl Typed for i32 {
    fn build(graph: &mut TypeGraph) -> (r: NodeId)
        ensures
            !old(graph).map@.contains_key(r.0) ==> final(graph).node(r) == TypeNode::Scalar(
                ScalarNode::I32,
            ),
            !old(graph).map@.contains_key(r.0) ==> final(graph).is_resolved(r),
    {
        scalar_node(graph, "i32", ScalarNode::I32)
    }
}

impl Typed for i64 {
    fn build(graph: &mut TypeGraph) -> (r: NodeId)
        ensures
            !old(graph).map@.contains_key(r.0) ==> final(graph).node(r) == TypeNode::Scalar(
                ScalarNode::I64,
            ),
            !old(graph).map@.contains_key(r.0) ==> final(graph).is_resolved(r),
    {
        scalar_node(graph, "i64", ScalarNode::I64)
    }
}

impl Typed for i128 {
    fn build(graph: &mut TypeGraph) -> (r: NodeId)
        ensures
            !old(graph).map@.contains_key(r.0) ==> final(graph).node(r) == TypeNode::Scalar(
                ScalarNode::I128,
            ),
            !old(graph).map@.contains_key(r.0) ==> final(graph).is_resolved(r),
    {
        scalar_node(graph, "i128", ScalarNode::I128)
    }
}

impl Typed for bool {
    fn build(graph: &mut TypeGraph) -> (r: NodeId)
        ensures
            !old(graph).map@.contains_key(r.0) ==> final(graph).node(r) == TypeNode::Scalar(
                ScalarNode::Bool,
            ),
            !old(graph).map@.contains_key(r.0) ==> final(graph).is_resolved(r),
    {
        scalar_node(graph, "bool", ScalarNode::Bool)
    }
}

impl Typed for char {
    fn build(graph: &mut TypeGraph) -> (r: NodeId)
        ensures
            !old(graph).map@.contains_key(r.0) ==> final(graph).node(r) == TypeNode::Scalar(
                ScalarNode::Char,
            ),
            !old(graph).map@.contains_key(r.0) ==> final(graph).is_resolved(r),
    {
        scalar_node(graph, "char", ScalarNode::Char)
    }
}

impl Typed for String {
    fn build(graph: &mut TypeGraph) -> (r: NodeId)
        ensures
            !old(graph).map@.contains_key(r.0) ==> final(graph).node(r) == TypeNode::Scalar(
                ScalarNode::Str,
            ),
            !old(graph).map@.contains_key(r.0) ==> final(graph).is_resolved(r),
    {
        scalar_node(graph, "String", ScalarNode::Str)
    }
}

} // verus!
