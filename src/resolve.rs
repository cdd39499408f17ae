//! The two resolvers of key paths, over values and over the type graph.
use vstd::prelude::*;
use crate::order::{Term, tag, children};
use crate::value::{Value, VariantFields, text_term, text_terms, named_terms, entry_terms, list_terms};
use crate::key_path::{Key, NamedOrNumbered};
use crate::graph::{
    TypeGraph, TypeNode, NodeId, ScalarNode, VariantNode, NamedFieldNode, UnnamedFieldNode, TypeRoot,
};
use crate::key_path::{KeyView, KeyPath};

verus! {

/// First index `j >= i` of a pair term `Branch(_, [key, value])` whose key is `key`, or `-1`.
pub open spec fn first_key(s: Seq<Term>, key: Term, i: int) -> int
    decreases s.len() - i,
{
    if i < 0 || i >= s.len() {
        -1
    } else if pair_key(s[i]) == key {
        i
    } else {
        first_key(s, key, i + 1)
    }
}

pub open spec fn pair_key(t: Term) -> Term {
    match t {
        Term::Branch(_, kv) => if kv.len() == 2 {
            kv[0]
        } else {
            Term::Atom(-1, 0)
        },
        _ => Term::Atom(-1, 0),
    }
}

pub open spec fn pair_value(t: Term) -> Term {
    match t {
        Term::Branch(_, kv) => if kv.len() == 2 {
            kv[1]
        } else {
            Term::Atom(-1, 0)
        },
        _ => Term::Atom(-1, 0),
    }
}

/// The view of an integer value (of any width, signed or not): the literals
/// that index a list.
pub open spec fn is_index(t: Term) -> bool {
    t is Atom && 0 <= tag(t) <= 10
}

pub open spec fn index_of(t: Term) -> int {
    match t {
        Term::Atom(_, n) => n,
        _ => -1,
    }
}

/// A field by name among `Branch(_, [name, value])` pairs.
pub open spec fn named_child(pairs: Seq<Term>, name: Seq<char>) -> Option<Term> {
    let j = first_key(pairs, text_term(name), 0);
    if j >= 0 {
        Some(pair_value(pairs[j]))
    } else {
        None
    }
}

pub open spec fn nth_child(elems: Seq<Term>, n: int) -> Option<Term> {
    if 0 <= n < elems.len() {
        Some(elems[n])
    } else {
        None
    }
}

/// One step of the value walk. The state is the value reached and whether a
/// variant was selected on it (which only an enum value can have).
pub open spec fn value_step(t: Term, narrowed: bool, k: KeyView) -> Option<(Term, bool)> {
    let s = children(t);
    let r = match k {
        KeyView::Field(name) => if !narrowed && tag(t) == 16 {
            named_child(s, name)
        } else if narrowed && tag(t) == 17 && s.len() == 2 && tag(s[1]) == 0 {
            named_child(children(s[1]), name)
        } else {
            None
        },
        KeyView::Position(n) => if !narrowed && (tag(t) == 18 || tag(t) == 19) {
            nth_child(s, n as int)
        } else if narrowed && tag(t) == 17 && s.len() == 2 && tag(s[1]) == 1 {
            nth_child(children(s[1]), n as int)
        } else {
            None
        },
        KeyView::Get(key) => if !narrowed && tag(t) == 20 {
            if is_index(key) {
                nth_child(s, index_of(key))
            } else {
                None
            }
        } else if !narrowed && tag(t) == 21 {
            let j = first_key(s, key, 0);
            if j >= 0 {
                Some(pair_value(s[j]))
            } else {
                None
            }
        } else {
            None
        },
        KeyView::Variant(name) => if !narrowed && tag(t) == 17 && s.len() == 2 && s[0] == text_term(
            name,
        ) {
            Some(t)
        } else {
            None
        },
    };
    match r {
        Some(u) => Some(
            (u, match k {
                KeyView::Variant(_) => true,
                _ => false,
            }),
        ),
        None => None,
    }
}

/// The value walk over keys `i..` of a path; absent as soon as one step fails.
pub open spec fn value_walk(t: Term, narrowed: bool, p: Seq<KeyView>, i: int) -> Option<(Term, bool)>
    decreases p.len() - i,
{
    if i < 0 || i >= p.len() {
        Some((t, narrowed))
    } else {
        match value_step(t, narrowed, p[i]) {
            Some((u, n)) => value_walk(u, n, p, i + 1),
            None => None,
        }
    }
}

/// Where the type walk stands: a type, or a variant selected on an enum type.
pub enum TypeState {
    Type(NodeId),
    Variant(NodeId, int),
}

pub open spec fn first_field(fields: Seq<NamedFieldNode>, name: Seq<char>, i: int) -> int
    decreases fields.len() - i,
{
    if i < 0 || i >= fields.len() {
        -1
    } else if text_term(fields[i].name@) == text_term(name) {
        i
    } else {
        first_field(fields, name, i + 1)
    }
}

pub open spec fn first_variant(vs: Seq<VariantNode>, name: Term, i: int) -> int
    decreases vs.len() - i,
{
    if i < 0 || i >= vs.len() {
        -1
    } else if text_term(vs[i].spec_name()) == name {
        i
    } else {
        first_variant(vs, name, i + 1)
    }
}

pub open spec fn named_field_type(fields: Seq<NamedFieldNode>, name: Seq<char>) -> Option<TypeState> {
    let j = first_field(fields, name, 0);
    if j >= 0 {
        Some(TypeState::Type(fields[j].id))
    } else {
        None
    }
}

pub open spec fn nth_field_type(fields: Seq<UnnamedFieldNode>, n: int) -> Option<TypeState> {
    if 0 <= n < fields.len() {
        Some(TypeState::Type(fields[n].id))
    } else {
        None
    }
}

/// One step of the type walk.
pub open spec fn type_step(g: TypeGraph, st: TypeState, k: KeyView) -> Option<TypeState> {
    match st {
        TypeState::Type(id) => if !g.is_resolved(id) {
            None
        } else {
            match (g.node(id), k) {
                (TypeNode::Struct(sn), KeyView::Field(name)) => named_field_type(sn.fields@, name),
                (TypeNode::TupleStruct(tn), KeyView::Position(n)) => nth_field_type(tn.fields@, n as int),
                (TypeNode::Tuple(tn), KeyView::Position(n)) => nth_field_type(tn.fields@, n as int),
                (TypeNode::List(ln), KeyView::Get(key)) => if !is_index(key) {
                    None
                } else {
                    Some(TypeState::Type(ln.field_type_id))
                },
                (TypeNode::Array(an), KeyView::Get(key)) => if !is_index(key) {
                    None
                } else {
                    Some(TypeState::Type(an.field_type_id))
                },
                (TypeNode::Dict(mn), KeyView::Get(_)) => Some(TypeState::Type(mn.value_type_id)),
                (TypeNode::Enum(en), KeyView::Variant(name)) => {
                    let j = first_variant(en.variants@, text_term(name), 0);
                    if j >= 0 {
                        Some(TypeState::Variant(id, j))
                    } else {
                        None
                    }
                },
                _ => None,
            }
        },
        TypeState::Variant(id, j) => if !g.is_resolved(id) {
            None
        } else {
            match g.node(id) {
                TypeNode::Enum(en) => if 0 <= j < en.variants.len() {
                    match (en.variants[j], k) {
                        (VariantNode::Struct(sv), KeyView::Field(name)) => named_field_type(sv.fields@, name),
                        (VariantNode::Tuple(tv), KeyView::Position(n)) => nth_field_type(tv.fields@, n as int),
                        _ => None,
                    }
                } else {
                    None
                },
                _ => None,
            }
        },
    }
}

/// The type walk over keys `i..` of a path.
pub open spec fn type_walk(g: TypeGraph, st: TypeState, p: Seq<KeyView>, i: int) -> Option<TypeState>
    decreases p.len() - i,
{
    if i < 0 || i >= p.len() {
        Some(st)
    } else {
        match type_step(g, st, p[i]) {
            Some(s) => type_walk(g, s, p, i + 1),
            None => None,
        }
    }
}

pub open spec fn scalar_tag(s: ScalarNode) -> int {
    match s {
        ScalarNode::Usize => 0,
        ScalarNode::U8 => 1,
        ScalarNode::U16 => 2,
        ScalarNode::U32 => 3,
        ScalarNode::U64 => 4,
        ScalarNode::U128 => 5,
        ScalarNode::I8 => 6,
        ScalarNode::I16 => 7,
        ScalarNode::I32 => 8,
        ScalarNode::I64 => 9,
        ScalarNode::I128 => 10,
        ScalarNode::Bool => 11,
        ScalarNode::Char => 12,
        ScalarNode::F32 => 13,
        ScalarNode::F64 => 14,
        ScalarNode::Str => 15,
    }
}

/// Whether a value (given by its view) has the type `id` in the graph.
pub open spec fn conforms(g: TypeGraph, t: Term, id: NodeId) -> bool
    decreases t,
{
    g.is_resolved(id) && match g.node(id) {
        TypeNode::Scalar(s) => tag(t) == scalar_tag(s) && (t is Atom <==> s != ScalarNode::Str),
        TypeNode::Struct(sn) => t is Branch && tag(t) == 16 && children(t).len() == sn.fields.len()
            && forall|j: int|
            0 <= j < children(t).len() ==> {
                &&& children(t)[j] is Branch
                &&& children(children(t)[j]).len() == 2
                &&& children(children(t)[j])[0] == text_term(sn.fields[j].name@)
                &&& conforms(g, children(children(t)[j])[1], sn.fields[j].id)
            },
        TypeNode::TupleStruct(tn) => t is Branch && tag(t) == 18 && children(t).len() == tn.fields.len()
            && forall|j: int| 0 <= j < children(t).len() ==> conforms(g, children(t)[j], tn.fields[j].id),
        TypeNode::Tuple(tn) => t is Branch && tag(t) == 19 && children(t).len() == tn.fields.len()
            && forall|j: int| 0 <= j < children(t).len() ==> conforms(g, children(t)[j], tn.fields[j].id),
        TypeNode::Enum(en) => t is Branch && tag(t) == 17 && children(t).len() == 2 && {
            let j = first_variant(en.variants@, children(t)[0], 0);
            let f = children(t)[1];
            &&& 0 <= j
            &&& f is Branch
            &&& match en.variants[j] {
                VariantNode::Struct(sv) => tag(f) == 0 && children(f).len() == sv.fields.len()
                    && forall|i: int|
                    0 <= i < children(f).len() ==> {
                        &&& children(f)[i] is Branch
                        &&& children(children(f)[i]).len() == 2
                        &&& children(children(f)[i])[0] == text_term(sv.fields[i].name@)
                        &&& conforms(g, children(children(f)[i])[1], sv.fields[i].id)
                    },
                VariantNode::Tuple(tv) => tag(f) == 1 && children(f).len() == tv.fields.len()
                    && forall|i: int| 0 <= i < children(f).len() ==> conforms(g, children(f)[i], tv.fields[i].id),
                VariantNode::Unit(_) => tag(f) == 2 && children(f).len() == 0,
            }
        },
        TypeNode::List(ln) => t is Branch && tag(t) == 20 && forall|j: int|
            0 <= j < children(t).len() ==> conforms(g, children(t)[j], ln.field_type_id),
        TypeNode::Array(an) => t is Branch && tag(t) == 20 && children(t).len() == an.len && forall|j: int|
            0 <= j < children(t).len() ==> conforms(g, children(t)[j], an.field_type_id),
        TypeNode::Dict(mn) => t is Branch && tag(t) == 21 && forall|j: int|
            0 <= j < children(t).len() ==> {
                &&& children(t)[j] is Branch
                &&& children(children(t)[j]).len() == 2
                &&& conforms(g, children(children(t)[j])[0], mn.key_type_id)
                &&& conforms(g, children(children(t)[j])[1], mn.value_type_id)
            },
        TypeNode::Opaque(_) => tag(t) <= 15,
    }
}


/// How a state of the value walk matches a state of the type walk: the value
/// has the type, and a selected variant is the value's active one.
pub open spec fn state_agrees(g: TypeGraph, t: Term, narrowed: bool, st: TypeState) -> bool {
    match st {
        TypeState::Type(id) => !narrowed && conforms(g, t, id),
        TypeState::Variant(id, j) => {
            &&& narrowed
            &&& conforms(g, t, id)
            &&& g.node(id) is Enum
            &&& children(t).len() == 2
            &&& j == first_variant(g.node(id)->Enum_0.variants@, children(t)[0], 0)
        },
    }
}

pub(crate) proof fn lemma_first_key_range(s: Seq<Term>, key: Term, i: int)
    requires
        0 <= i,
    ensures
        first_key(s, key, i) == -1 || (i <= first_key(s, key, i) < s.len() && pair_key(
            s[first_key(s, key, i)],
        ) == key),
    decreases s.len() - i,
{
    if i < s.len() && pair_key(s[i]) != key {
        lemma_first_key_range(s, key, i + 1);
    }
}

proof fn lemma_first_field(pairs: Seq<Term>, fields: Seq<NamedFieldNode>, name: Seq<char>, i: int)
    requires
        0 <= i,
        pairs.len() == fields.len(),
        forall|j: int| 0 <= j < pairs.len() ==> pair_key(pairs[j]) == text_term(fields[j].name@),
    ensures
        first_key(pairs, text_term(name), i) == first_field(fields, name, i),
    decreases pairs.len() - i,
{
    if i < pairs.len() {
        lemma_first_field(pairs, fields, name, i + 1);
    }
}

proof fn lemma_first_variant_range(vs: Seq<VariantNode>, name: Term, i: int)
    requires
        0 <= i,
    ensures
        first_variant(vs, name, i) == -1 || i <= first_variant(vs, name, i) < vs.len(),
    decreases vs.len() - i,
{
    if i < vs.len() && text_term(vs[i].spec_name()) != name {
        lemma_first_variant_range(vs, name, i + 1);
    }
}

proof fn lemma_named_step(g: TypeGraph, pairs: Seq<Term>, fields: Seq<NamedFieldNode>, name: Seq<char>)
    requires
        pairs.len() == fields.len(),
        forall|j: int|
            0 <= j < pairs.len() ==> {
                &&& pairs[j] is Branch
                &&& children(pairs[j]).len() == 2
                &&& children(pairs[j])[0] == text_term(fields[j].name@)
                &&& conforms(g, children(pairs[j])[1], fields[j].id)
            },
        named_child(pairs, name) is Some,
    ensures
        named_field_type(fields, name) == Some(
            TypeState::Type(fields[first_key(pairs, text_term(name), 0)].id),
        ),
        conforms(
            g,
            named_child(pairs, name)->Some_0,
            fields[first_key(pairs, text_term(name), 0)].id,
        ),
{
    assert forall|j: int| 0 <= j < pairs.len() implies pair_key(pairs[j]) == text_term(
        fields[j].name@,
    ) by {
        assert(children(pairs[j]) == pairs[j]->Branch_1);
    }
    lemma_first_field(pairs, fields, name, 0);
    lemma_first_key_range(pairs, text_term(name), 0);
}

proof fn lemma_step_agrees(g: TypeGraph, t: Term, narrowed: bool, st: TypeState, k: KeyView)
    requires
        state_agrees(g, t, narrowed, st),
        value_step(t, narrowed, k) is Some,
    ensures
        type_step(g, st, k) is Some,
        state_agrees(
            g,
            value_step(t, narrowed, k)->Some_0.0,
            value_step(t, narrowed, k)->Some_0.1,
            type_step(g, st, k)->Some_0,
        ),
{
    let s = children(t);
    match st {
        TypeState::Type(id) => {
            match g.node(id) {
                TypeNode::Struct(sn) => {
                    if let KeyView::Field(name) = k {
                        lemma_named_step(g, s, sn.fields@, name);
                    }
                },
                TypeNode::Dict(mn) => {
                    if let KeyView::Get(key) = k {
                        lemma_first_key_range(s, key, 0);
                    }
                },
                TypeNode::Enum(en) => {
                    lemma_first_variant_range(en.variants@, s[0], 0);
                },
                _ => {},
            }
        },
        TypeState::Variant(id, j) => {
            let en = g.node(id)->Enum_0;
            lemma_first_variant_range(en.variants@, s[0], 0);
            let f = s[1];
            match en.variants[j] {
                VariantNode::Struct(sv) => {
                    if let KeyView::Field(name) = k {
                        lemma_named_step(g, children(f), sv.fields@, name);
                    }
                },
                _ => {},
            }
        },
    }
}

proof fn lemma_walk_agrees(g: TypeGraph, t: Term, narrowed: bool, st: TypeState, p: Seq<KeyView>, i: int)
    requires
        0 <= i,
        state_agrees(g, t, narrowed, st),
        value_walk(t, narrowed, p, i) is Some,
    ensures
        type_walk(g, st, p, i) is Some,
        state_agrees(
            g,
            value_walk(t, narrowed, p, i)->Some_0.0,
            value_walk(t, narrowed, p, i)->Some_0.1,
            type_walk(g, st, p, i)->Some_0,
        ),
    decreases p.len() - i,
{
    if i < p.len() {
        lemma_step_agrees(g, t, narrowed, st, p[i]);
        let (u, n) = value_step(t, narrowed, p[i])->Some_0;
        lemma_walk_agrees(g, u, n, type_step(g, st, p[i])->Some_0, p, i + 1);
    }
}

/// The two resolvers agree. Where a value has type `id`, and the value walk
/// along a path reaches a value, the type walk along the same path succeeds
/// too, and what it reaches is the type of that value (or, after a `::Name`
/// selector, the value's active variant of that type). The converse does not
/// hold of every value: the type walk cannot know list lengths, map keys or
/// which variant is active.
pub proof fn resolvers_agree(g: TypeGraph, v: Value, id: NodeId, p: KeyPath)
    requires
        conforms(g, v@, id),
    ensures
        value_walk(v@, false, p@, 0) is Some ==> {
            &&& type_walk(g, TypeState::Type(id), p@, 0) is Some
            &&& state_agrees(
                g,
                value_walk(v@, false, p@, 0)->Some_0.0,
                value_walk(v@, false, p@, 0)->Some_0.1,
                type_walk(g, TypeState::Type(id), p@, 0)->Some_0,
            )
        },
{
    if value_walk(v@, false, p@, 0) is Some {
        lemma_walk_agrees(g, v@, false, TypeState::Type(id), p@, 0);
    }
}


proof fn lemma_text_term_injective(a: Seq<char>, b: Seq<char>)
    ensures
        (text_term(a) == text_term(b)) == (a == b),
{
    if text_term(a) == text_term(b) {
        assert(text_terms(a).len() == a.len());
        assert forall|j: int| 0 <= j < a.len() implies a[j] == b[j] by {
            assert(text_terms(a)[j] == text_terms(b)[j]);
        }
        assert(a =~= b);
    }
}

/// Whether two strings hold the same characters.
pub fn same_text(a: &str, b: &str) -> (r: bool)
    ensures
        r == (a@ == b@),
        r == (text_term(a@) == text_term(b@)),
{
    proof {
        lemma_text_term_injective(a@, b@);
    }
    let n = a.unicode_len();
    if n != b.unicode_len() {
        assert(a@ != b@);
        return false;
    }
    let mut i: usize = 0;
    while i < n
        invariant
            i <= n,
            n == a@.len(),
            n == b@.len(),
            forall|j: int| 0 <= j < i ==> a@[j] == b@[j],
        decreases n - i,
    {
        if a.get_char(i) != b.get_char(i) {
            assert(a@[i as int] != b@[i as int]);
            assert(a@ != b@);
            proof {
                lemma_text_term_injective(a@, b@);
            }
            return false;
        }
        i = i + 1;
    }
    assert(a@ =~= b@);
    true
}

fn find_named<'a>(f: &'a Vec<(String, Value)>, name: &str) -> (r: Option<&'a Value>)
    ensures
        r is Some <==> named_child(named_terms(*f), name@) is Some,
        r matches Some(w) ==> w@ == named_child(named_terms(*f), name@)->Some_0,
{
    let ghost s = named_terms(*f);
    let ghost key = text_term(name@);
    let mut i: usize = 0;
    while i < f.len()
        invariant
            i <= f.len(),
            s == named_terms(*f),
            key == text_term(name@),
            first_key(s, key, 0) == first_key(s, key, i as int),
        decreases f.len() - i,
    {
        assert(pair_key(s[i as int]) == text_term(f[i as int].0@));
        if same_text(f[i].0.as_str(), name) {
            return Some(&f[i].1);
        }
        i = i + 1;
    }
    None
}

fn find_entry<'a>(m: &'a Vec<(Value, Value)>, key: &Value) -> (r: Option<&'a Value>)
    ensures
        r is Some <==> first_key(entry_terms(*m), key@, 0) >= 0,
        r matches Some(w) ==> w@ == pair_value(entry_terms(*m)[first_key(entry_terms(*m), key@, 0)]),
{
    let ghost s = entry_terms(*m);
    let mut i: usize = 0;
    while i < m.len()
        invariant
            i <= m.len(),
            s == entry_terms(*m),
            first_key(s, key@, 0) == first_key(s, key@, i as int),
        decreases m.len() - i,
    {
        assert(pair_key(s[i as int]) == m[i as int].0@);
        if m[i].0 == *key {
            return Some(&m[i].1);
        }
        i = i + 1;
    }
    None
}

/// The index that an integer value denotes, where it fits a `usize`.
fn index_value(v: &Value) -> (r: Option<usize>)
    ensures
        r matches Some(n) ==> is_index(v@) && index_of(v@) == n,
        r is None ==> !is_index(v@) || index_of(v@) < 0 || index_of(v@) > usize::MAX,
{
    match v {
        Value::Usize(n) => Some(*n),
        Value::U8(n) => Some(*n as usize),
        Value::U16(n) => Some(*n as usize),
        Value::U32(n) => if *n as u128 <= usize::MAX as u128 {
            Some(*n as usize)
        } else {
            None
        },
        Value::U64(n) => if *n as u128 <= usize::MAX as u128 {
            Some(*n as usize)
        } else {
            None
        },
        Value::U128(n) => if *n <= usize::MAX as u128 {
            Some(*n as usize)
        } else {
            None
        },
        Value::I8(n) => signed_index(*n as i128),
        Value::I16(n) => signed_index(*n as i128),
        Value::I32(n) => signed_index(*n as i128),
        Value::I64(n) => signed_index(*n as i128),
        Value::I128(n) => signed_index(*n),
        _ => None,
    }
}

fn signed_index(n: i128) -> (r: Option<usize>)
    ensures
        r matches Some(m) ==> m == n,
        r is None ==> n < 0 || n > usize::MAX,
{
    if 0 <= n && n <= usize::MAX as i128 {
        Some(n as usize)
    } else {
        None
    }
}

/// The value at the end of a path, where it is of the kind `kind` (a
/// position in the order of kinds, as `Value::kind_index` gives); `None`
/// where the walk fails or ends on a value of another kind.
pub fn get_at<'a>(v: &'a Value, path: &KeyPath, kind: u8) -> (r: Option<&'a Value>)
    ensures
        r is Some <==> (value_walk(v@, false, path@, 0) is Some && tag(
            value_walk(v@, false, path@, 0)->Some_0.0,
        ) == kind),
        r matches Some(w) ==> w@ == value_walk(v@, false, path@, 0)->Some_0.0,
{
    match value_at(v, path) {
        Some(w) => if w.kind_index() == kind {
            Some(w)
        } else {
            None
        },
        None => None,
    }
}

fn step<'a>(cur: &'a Value, narrowed: bool, k: &Key) -> (r: Option<(&'a Value, bool)>)
    ensures
        r is Some <==> value_step(cur@, narrowed, k@) is Some,
        r matches Some((w, n)) ==> value_step(cur@, narrowed, k@) == Some((w@, n)),
{
    proof {
        match cur {
            Value::EnumValue(e) => {
                assert(children(cur@)[0] == text_term(e.variant@));
                assert(children(cur@)[1] == crate::value::variant_term(e.fields));
            },
            _ => {},
        }
    }
    match k {
        Key::Field(NamedOrNumbered::Named(name)) => {
            if !narrowed {
                if let Value::StructValue(sv) = cur {
                    return match find_named(&sv.fields, name.as_str()) {
                        Some(w) => Some((w, false)),
                        None => None,
                    };
                }
            } else if let Value::EnumValue(e) = cur {
                if let VariantFields::Struct(sv) = &e.fields {
                    return match find_named(&sv.fields, name.as_str()) {
                        Some(w) => Some((w, false)),
                        None => None,
                    };
                }
            }
            None
        },
        Key::Field(NamedOrNumbered::Numbered(n)) => {
            let elems: Option<&Vec<Value>> = if !narrowed {
                match cur {
                    Value::TupleValue(t) => Some(&t.fields),
                    Value::TupleStructValue(t) => Some(&t.tuple.fields),
                    _ => None,
                }
            } else {
                match cur {
                    Value::EnumValue(e) => match &e.fields {
                        VariantFields::Tuple(t) => Some(&t.fields),
                        _ => None,
                    },
                    _ => None,
                }
            };
            match elems {
                Some(l) => if *n < l.len() {
                    Some((&l[*n], false))
                } else {
                    None
                },
                None => None,
            }
        },
        Key::Get(key) => {
            if narrowed {
                return None;
            }
            match cur {
                Value::List(l) => match index_value(key) {
                    Some(n) => if n < l.len() {
                        Some((&l[n], false))
                    } else {
                        None
                    },
                    None => None,
                },
                Value::Dict(m) => match find_entry(m, key) {
                    Some(w) => Some((w, false)),
                    None => None,
                },
                _ => None,
            }
        },
        Key::Variant(name) => {
            if narrowed {
                return None;
            }
            match cur {
                Value::EnumValue(e) => {
                    if same_text(e.variant.as_str(), name.as_str()) {
                        Some((cur, true))
                    } else {
                        None
                    }
                },
                _ => None,
            }
        },
    }
}

/// The value at the end of a path, or `None` as soon as a step fails. A path
/// that ends on a `::Name` selector addresses the enum value itself.
pub fn value_at<'a>(v: &'a Value, path: &KeyPath) -> (r: Option<&'a Value>)
    ensures
        r is Some <==> value_walk(v@, false, path@, 0) is Some,
        r matches Some(w) ==> w@ == value_walk(v@, false, path@, 0)->Some_0.0,
{
    let mut cur: &Value = v;
    let mut narrowed = false;
    let mut i: usize = 0;
    while i < path.path.len()
        invariant
            i <= path.path.len(),
            value_walk(v@, false, path@, 0) == value_walk(cur@, narrowed, path@, i as int),
        decreases path.path.len() - i,
    {
        match step(cur, narrowed, &path.path[i]) {
            Some((w, n)) => {
                cur = w;
                narrowed = n;
            },
            None => {
                return None;
            },
        }
        i = i + 1;
    }
    Some(cur)
}


/// What a path leads to in a type graph: a type, or a variant selected on an
/// enum type (its index among the enum's variants).
#[derive(Clone, Copy, Debug, PartialEq, Eq)]
pub enum TypeAtPath {
    Type(NodeId),
    Variant(NodeId, usize),
}

impl View for TypeAtPath {
    type V = TypeState;

    open spec fn view(&self) -> TypeState {
        match self {
            TypeAtPath::Type(id) => TypeState::Type(*id),
            TypeAtPath::Variant(id, j) => TypeState::Variant(*id, *j as int),
        }
    }
}

proof fn lemma_first_field_range(fields: Seq<NamedFieldNode>, name: Seq<char>, i: int)
    requires
        0 <= i,
    ensures
        first_field(fields, name, i) == -1 || i <= first_field(fields, name, i) < fields.len(),
    decreases fields.len() - i,
{
    if i < fields.len() && text_term(fields[i].name@) != text_term(name) {
        lemma_first_field_range(fields, name, i + 1);
    }
}

fn find_field(fields: &Vec<NamedFieldNode>, name: &str) -> (r: Option<TypeAtPath>)
    ensures
        r is Some <==> named_field_type(fields@, name@) is Some,
        r matches Some(s) ==> Some(s@) == named_field_type(fields@, name@),
{
    proof {
        lemma_first_field_range(fields@, name@, 0);
    }
    let mut i: usize = 0;
    while i < fields.len()
        invariant
            i <= fields.len(),
            first_field(fields@, name@, 0) == first_field(fields@, name@, i as int),
            first_field(fields@, name@, 0) == -1 || 0 <= first_field(fields@, name@, 0) < fields.len(),
        decreases fields.len() - i,
    {
        if same_text(fields[i].name.as_str(), name) {
            return Some(TypeAtPath::Type(fields[i].id));
        }
        i = i + 1;
    }
    None
}

fn find_variant(vs: &Vec<VariantNode>, name: &str) -> (r: Option<usize>)
    ensures
        r matches Some(j) ==> j as int == first_variant(vs@, text_term(name@), 0),
        r is None ==> first_variant(vs@, text_term(name@), 0) == -1,
{
    let mut i: usize = 0;
    while i < vs.len()
        invariant
            i <= vs.len(),
            first_variant(vs@, text_term(name@), 0) == first_variant(vs@, text_term(name@), i as int),
        decreases vs.len() - i,
    {
        if same_text(vs[i].name().as_str(), name) {
            return Some(i);
        }
        i = i + 1;
    }
    None
}

fn nth_field(fields: &Vec<UnnamedFieldNode>, n: usize) -> (r: Option<TypeAtPath>)
    ensures
        r is Some <==> nth_field_type(fields@, n as int) is Some,
        r matches Some(s) ==> Some(s@) == nth_field_type(fields@, n as int),
{
    if n < fields.len() {
        Some(TypeAtPath::Type(fields[n].id))
    } else {
        None
    }
}

fn type_step_at(g: &TypeGraph, st: TypeAtPath, k: &Key) -> (r: Option<TypeAtPath>)
    ensures
        r is Some <==> type_step(*g, st@, k@) is Some,
        r matches Some(s) ==> Some(s@) == type_step(*g, st@, k@),
{
    match st {
        TypeAtPath::Type(id) => {
            let node = match g.try_get(id) {
                Some(n) => n,
                None => {
                    return None;
                },
            };
            match node {
                TypeNode::Struct(sn) => match k {
                    Key::Field(NamedOrNumbered::Named(name)) => find_field(&sn.fields, name.as_str()),
                    _ => None,
                },
                TypeNode::TupleStruct(tn) => match k {
                    Key::Field(NamedOrNumbered::Numbered(n)) => nth_field(&tn.fields, *n),
                    _ => None,
                },
                TypeNode::Tuple(tn) => match k {
                    Key::Field(NamedOrNumbered::Numbered(n)) => nth_field(&tn.fields, *n),
                    _ => None,
                },
                TypeNode::List(ln) => match k {
                    Key::Get(v) => if v.kind_index() <= 10 {
                        Some(TypeAtPath::Type(ln.field_type_id))
                    } else {
                        None
                    },
                    _ => None,
                },
                TypeNode::Array(an) => match k {
                    Key::Get(v) => if v.kind_index() <= 10 {
                        Some(TypeAtPath::Type(an.field_type_id))
                    } else {
                        None
                    },
                    _ => None,
                },
                TypeNode::Dict(mn) => match k {
                    Key::Get(_) => Some(TypeAtPath::Type(mn.value_type_id)),
                    _ => None,
                },
                TypeNode::Enum(en) => match k {
                    Key::Variant(name) => match find_variant(&en.variants, name.as_str()) {
                        Some(j) => Some(TypeAtPath::Variant(id, j)),
                        None => None,
                    },
                    _ => None,
                },
                _ => None,
            }
        },
        TypeAtPath::Variant(id, j) => {
            let node = match g.try_get(id) {
                Some(n) => n,
                None => {
                    return None;
                },
            };
            match node {
                TypeNode::Enum(en) => {
                    if j >= en.variants.len() {
                        return None;
                    }
                    match &en.variants[j] {
                        VariantNode::Struct(sv) => match k {
                            Key::Field(NamedOrNumbered::Named(name)) => find_field(&sv.fields, name.as_str()),
                            _ => None,
                        },
                        VariantNode::Tuple(tv) => match k {
                            Key::Field(NamedOrNumbered::Numbered(n)) => nth_field(&tv.fields, *n),
                            _ => None,
                        },
                        _ => None,
                    }
                },
                _ => None,
            }
        },
    }
}

/// What lives at the end of a path, starting from type `root`, without any
/// value in hand; `None` as soon as a step fails. List and array indices are
/// not checked against a length, but must be `usize` literals.
pub fn type_at(g: &TypeGraph, root: NodeId, path: &KeyPath) -> (r: Option<TypeAtPath>)
    ensures
        r is Some <==> type_walk(*g, TypeState::Type(root), path@, 0) is Some,
        r matches Some(s) ==> Some(s@) == type_walk(*g, TypeState::Type(root), path@, 0),
{
    let mut st = TypeAtPath::Type(root);
    let mut i: usize = 0;
    while i < path.path.len()
        invariant
            i <= path.path.len(),
            type_walk(*g, TypeState::Type(root), path@, 0) == type_walk(*g, st@, path@, i as int),
        decreases path.path.len() - i,
    {
        match type_step_at(g, st, &path.path[i]) {
            Some(s) => {
                st = s;
            },
            None => {
                return None;
            },
        }
        i = i + 1;
    }
    Some(st)
}

impl TypeRoot {
    /// What lives at the end of a path from this root type.
    pub fn type_at(&self, path: &KeyPath) -> (r: Option<TypeAtPath>)
        ensures
            r is Some <==> type_walk(self.graph, TypeState::Type(self.root), path@, 0) is Some,
            r matches Some(s) ==> Some(s@) == type_walk(self.graph, TypeState::Type(self.root), path@, 0),
    {
        type_at(&self.graph, self.root, path)
    }
}


/// `t` with the child that one step of the value walk selects replaced by `c`.
pub open spec fn put_child(t: Term, narrowed: bool, k: KeyView, c: Term) -> Term {
    let s = children(t);
    match k {
        KeyView::Field(name) => if !narrowed {
            let j = first_key(s, text_term(name), 0);
            Term::Branch(tag(t), s.update(j, Term::Branch(0, seq![pair_key(s[j]), c])))
        } else {
            let f = s[1];
            let j = first_key(children(f), text_term(name), 0);
            Term::Branch(
                17,
                seq![
                    s[0],
                    Term::Branch(
                        0,
                        children(f).update(j, Term::Branch(0, seq![pair_key(children(f)[j]), c])),
                    ),
                ],
            )
        },
        KeyView::Position(n) => if !narrowed {
            Term::Branch(tag(t), s.update(n as int, c))
        } else {
            Term::Branch(17, seq![s[0], Term::Branch(1, children(s[1]).update(n as int, c))])
        },
        KeyView::Get(key) => if tag(t) == 20 {
            Term::Branch(20, s.update(index_of(key), c))
        } else {
            let j = first_key(s, key, 0);
            Term::Branch(21, s.update(j, Term::Branch(0, seq![pair_key(s[j]), c])))
        },
        KeyView::Variant(_) => c,
    }
}

/// `t` with the value at the end of keys `i..` of `p` replaced by `new`; `t`
/// itself where the walk fails.
pub open spec fn replace_at(t: Term, narrowed: bool, p: Seq<KeyView>, i: int, new: Term) -> Term
    decreases p.len() - i,
{
    if i < 0 || i >= p.len() {
        new
    } else {
        match value_step(t, narrowed, p[i]) {
            Some((u, n)) => put_child(t, narrowed, p[i], replace_at(u, n, p, i + 1, new)),
            None => t,
        }
    }
}

fn set_named(f: &mut Vec<(String, Value)>, name: &str, path: &KeyPath, i: usize, new: Value) -> (r: bool)
    requires
        i < path.path.len(),
    ensures
        ({
            let s = named_terms(*old(f));
            let j = first_key(s, text_term(name@), 0);
            &&& r == (j >= 0 && value_walk(pair_value(s[j]), false, path@, i + 1) is Some)
            &&& j >= 0 ==> named_terms(*final(f)) == s.update(
                j,
                Term::Branch(
                    0,
                    seq![pair_key(s[j]), replace_at(pair_value(s[j]), false, path@, i + 1, new@)],
                ),
            )
            &&& j < 0 ==> *final(f) == *old(f)
        }),
    decreases *old(f), 0int,
{
    let ghost s = named_terms(*f);
    let ghost f0 = *f;
    let mut k: usize = 0;
    while k < f.len()
        invariant
            k <= f.len(),
            f0 == *old(f),
            *f == f0,
            s == named_terms(f0),
            i < path.path.len(),
            first_key(s, text_term(name@), 0) == first_key(s, text_term(name@), k as int),
        decreases f.len() - k,
    {
        assert(pair_key(s[k as int]) == text_term(f[k as int].0@));
        if same_text(f[k].0.as_str(), name) {
            proof {
                assert(decreases_to!(f0 => f0[k as int]));
                assert(decreases_to!(f0[k as int] => f0[k as int].1));
                assert(pair_value(s[k as int]) == f0[k as int].1@);
                assert(pair_key(s[k as int]) == text_term(f0[k as int].0@));
            }
            let r = set_at_from(&mut f[k].1, false, path, i + 1, new);
            proof {
                let kv = seq![text_term(f0[k as int].0@), f[k as int].1@];
                assert(named_terms(*f) =~= s.update(k as int, Term::Branch(0, kv)));
            }
            return r;
        }
        k = k + 1;
    }
    false
}

fn set_entry(m: &mut Vec<(Value, Value)>, key: &Value, path: &KeyPath, i: usize, new: Value) -> (r: bool)
    requires
        i < path.path.len(),
    ensures
        ({
            let s = entry_terms(*old(m));
            let j = first_key(s, key@, 0);
            &&& r == (j >= 0 && value_walk(pair_value(s[j]), false, path@, i + 1) is Some)
            &&& j >= 0 ==> entry_terms(*final(m)) == s.update(
                j,
                Term::Branch(
                    0,
                    seq![pair_key(s[j]), replace_at(pair_value(s[j]), false, path@, i + 1, new@)],
                ),
            )
            &&& j < 0 ==> *final(m) == *old(m)
        }),
    decreases *old(m), 0int,
{
    let ghost s = entry_terms(*m);
    let ghost m0 = *m;
    let mut k: usize = 0;
    while k < m.len()
        invariant
            k <= m.len(),
            m0 == *old(m),
            *m == m0,
            s == entry_terms(m0),
            i < path.path.len(),
            first_key(s, key@, 0) == first_key(s, key@, k as int),
        decreases m.len() - k,
    {
        assert(pair_key(s[k as int]) == m[k as int].0@);
        if m[k].0 == *key {
            proof {
                assert(decreases_to!(m0 => m0[k as int]));
                assert(decreases_to!(m0[k as int] => m0[k as int].1));
                assert(pair_value(s[k as int]) == m0[k as int].1@);
            }
            let r = set_at_from(&mut m[k].1, false, path, i + 1, new);
            proof {
                let kv = seq![m0[k as int].0@, m[k as int].1@];
                assert(entry_terms(*m) =~= s.update(k as int, Term::Branch(0, kv)));
            }
            return r;
        }
        k = k + 1;
    }
    false
}

fn set_in_list(l: &mut Vec<Value>, n: usize, path: &KeyPath, i: usize, new: Value) -> (r: bool)
    requires
        i < path.path.len(),
    ensures
        r == (n < old(l).len() && value_walk(old(l)[n as int]@, false, path@, i + 1) is Some),
        n < old(l).len() ==> list_terms(*final(l)) == list_terms(*old(l)).update(
            n as int,
            replace_at(old(l)[n as int]@, false, path@, i + 1, new@),
        ),
        n >= old(l).len() ==> *final(l) == *old(l),
    decreases *old(l), 0int,
{
    if n >= l.len() {
        return false;
    }
    let ghost l0 = *l;
    proof {
        assert(decreases_to!(l0 => l0[n as int]));
    }
    let r = set_at_from(&mut l[n], false, path, i + 1, new);
    assert(list_terms(*l) =~= list_terms(l0).update(
        n as int,
        replace_at(l0[n as int]@, false, path@, i + 1, new@),
    ));
    r
}

/// Replaces the value at the end of keys `i..` of `path`, walked from `v` in
/// the given state, and returns whether the walk reached a value.
fn set_at_from(v: &mut Value, narrowed: bool, path: &KeyPath, i: usize, new: Value) -> (r: bool)
    requires
        i <= path@.len(),
    ensures
        r == (value_walk(old(v)@, narrowed, path@, i as int) is Some),
        final(v)@ == replace_at(old(v)@, narrowed, path@, i as int, new@),
    decreases *old(v), 1int + path@.len() - i,
{
    if i >= path.path.len() {
        *v = new;
        return true;
    }
    let ghost v0 = *v;
    let ghost t = v0@;
    let ghost k = path@[i as int];
    proof {
        match v0 {
            Value::EnumValue(e) => {
                assert(children(t)[0] == text_term(e.variant@));
                assert(children(t)[1] == crate::value::variant_term(e.fields));
            },
            _ => {},
        }
    }
    match &path.path[i] {
        Key::Field(NamedOrNumbered::Named(name)) => {
            if !narrowed {
                if let Value::StructValue(sv) = v {
                    let r = set_named(&mut sv.fields, name.as_str(), path, i, new);
                    assert(v@ =~= replace_at(t, narrowed, path@, i as int, new@));
                    return r;
                }
            } else if let Value::EnumValue(e) = v {
                if let VariantFields::Struct(sv) = &mut e.fields {
                    let r = set_named(&mut sv.fields, name.as_str(), path, i, new);
                    assert(v@ =~= replace_at(t, narrowed, path@, i as int, new@));
                    return r;
                }
            }
            false
        },
        Key::Field(NamedOrNumbered::Numbered(n)) => {
            if !narrowed {
                match v {
                    Value::TupleValue(tv) => {
                        let r = set_in_list(&mut tv.fields, *n, path, i, new);
                        assert(v@ =~= replace_at(t, narrowed, path@, i as int, new@));
                        return r;
                    },
                    Value::TupleStructValue(tv) => {
                        let r = set_in_list(&mut tv.tuple.fields, *n, path, i, new);
                        assert(v@ =~= replace_at(t, narrowed, path@, i as int, new@));
                        return r;
                    },
                    _ => {},
                }
            } else if let Value::EnumValue(e) = v {
                if let VariantFields::Tuple(tv) = &mut e.fields {
                    let r = set_in_list(&mut tv.fields, *n, path, i, new);
                    assert(v@ =~= replace_at(t, narrowed, path@, i as int, new@));
                    return r;
                }
            }
            false
        },
        Key::Get(key) => {
            if narrowed {
                return false;
            }
            match v {
                Value::List(l) => match index_value(key) {
                    Some(n) => {
                        let r = set_in_list(l, n, path, i, new);
                        assert(v@ =~= replace_at(t, narrowed, path@, i as int, new@));
                        r
                    },
                    None => false,
                },
                Value::Dict(m) => {
                    let r = set_entry(m, key, path, i, new);
                    assert(v@ =~= replace_at(t, narrowed, path@, i as int, new@));
                    r
                },
                _ => false,
            }
        },
        Key::Variant(name) => {
            if narrowed {
                return false;
            }
            let fits = match &*v {
                Value::EnumValue(e) => same_text(e.variant.as_str(), name.as_str()),
                _ => false,
            };
            if fits {
                set_at_from(v, true, path, i + 1, new)
            } else {
                false
            }
        },
    }
}

proof fn lemma_first_key_update(s: Seq<Term>, key: Term, j: int, x: Term, i: int)
    requires
        0 <= i,
        0 <= j < s.len(),
        pair_key(x) == pair_key(s[j]),
    ensures
        first_key(s.update(j, x), key, i) == first_key(s, key, i),
    decreases s.len() - i,
{
    if i < s.len() {
        lemma_first_key_update(s, key, j, x, i + 1);
    }
}

proof fn lemma_put_child_step(t: Term, narrowed: bool, k: KeyView, c: Term)
    requires
        value_step(t, narrowed, k) is Some,
        !(k is Variant),
    ensures
        value_step(put_child(t, narrowed, k, c), narrowed, k) == Some((c, false)),
{
    let s = children(t);
    match k {
        KeyView::Field(name) => {
            let key = text_term(name);
            if !narrowed {
                let j = first_key(s, key, 0);
                lemma_first_key_range(s, key, 0);
                let x = Term::Branch(0, seq![pair_key(s[j]), c]);
                lemma_first_key_update(s, key, j, x, 0);
            } else {
                let f = s[1];
                let j = first_key(children(f), key, 0);
                lemma_first_key_range(children(f), key, 0);
                let x = Term::Branch(0, seq![pair_key(children(f)[j]), c]);
                lemma_first_key_update(children(f), key, j, x, 0);
            }
        },
        KeyView::Get(key) => {
            if tag(t) == 21 {
                let j = first_key(s, key, 0);
                lemma_first_key_range(s, key, 0);
                let x = Term::Branch(0, seq![pair_key(s[j]), c]);
                lemma_first_key_update(s, key, j, x, 0);
            }
        },
        _ => {},
    }
}

proof fn lemma_read_back(t: Term, narrowed: bool, p: Seq<KeyView>, i: int, new: Term)
    requires
        0 <= i,
        value_walk(t, narrowed, p, i) is Some,
        p.len() > 0 ==> !(p.last() is Variant),
    ensures
        value_walk(replace_at(t, narrowed, p, i, new), narrowed, p, i) is Some,
        value_walk(replace_at(t, narrowed, p, i, new), narrowed, p, i)->Some_0.0 == new,
    decreases p.len() - i,
{
    if i < p.len() {
        let k = p[i];
        let (u, n) = value_step(t, narrowed, k)->Some_0;
        let c = replace_at(u, n, p, i + 1, new);
        lemma_read_back(u, n, p, i + 1, new);
        if k is Variant {
            assert(i + 1 < p.len());
            let k2 = p[i + 1];
            let (u2, n2) = value_step(u, n, k2)->Some_0;
            let c2 = replace_at(u2, n2, p, i + 2, new);
            assert(c == put_child(u, n, k2, c2));
            assert(children(c)[0] == children(t)[0]);
        } else {
            lemma_put_child_step(t, narrowed, k, c);
        }
    }
}

/// Reading back what was written: where the walk along a path reaches a
/// value and the path does not end on a `::Name` selector, `set_at` along it
/// leaves exactly the new value there.
pub proof fn read_after_set_at(v: Value, path: KeyPath, new: Value)
    requires
        value_walk(v@, false, path@, 0) is Some,
        path@.len() > 0 ==> !(path@.last() is Variant),
    ensures
        value_walk(replace_at(v@, false, path@, 0, new@), false, path@, 0) is Some,
        value_walk(replace_at(v@, false, path@, 0, new@), false, path@, 0)->Some_0.0 == new@,
{
    lemma_read_back(v@, false, path@, 0, new@);
}

impl Value {
    /// Replaces the value at the end of `path` with `new` only where the value
    /// there has the same kind as `new`, so a write never changes the kind of
    /// a part. Returns whether it wrote; where it did not, nothing changes.
    pub fn set_at_checked(&mut self, path: &KeyPath, new: Value) -> (r: bool)
        ensures
            r == (value_walk(old(self)@, false, path@, 0) is Some && tag(
                value_walk(old(self)@, false, path@, 0)->Some_0.0,
            ) == tag(new@)),
            r ==> final(self)@ == replace_at(old(self)@, false, path@, 0, new@),
            !r ==> *final(self) == *old(self),
    {
        let fits = match value_at(self, path) {
            Some(w) => w.kind_index() == new.kind_index(),
            None => false,
        };
        if fits {
            self.set_at(path, new)
        } else {
            false
        }
    }

    /// Replaces the value at the end of `path` with `new`, and returns whether
    /// the path led to a value; where it did not, nothing changes.
    pub fn set_at(&mut self, path: &KeyPath, new: Value) -> (r: bool)
        ensures
            r == (value_walk(old(self)@, false, path@, 0) is Some),
            final(self)@ == replace_at(old(self)@, false, path@, 0, new@),
    {
        set_at_from(self, false, path, 0, new)
    }
}

} // verus!
