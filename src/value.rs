//! The dynamic value model and its view as a term.
use vstd::prelude::*;
use crate::order::Term;

verus! {

/// A dynamic value. Floats are held as their IEEE-754 bit patterns.
#[derive(Debug)]
pub enum Value {
    Usize(usize),
    U8(u8),
    U16(u16),
    U32(u32),
    U64(u64),
    U128(u128),
    I8(i8),
    I16(i16),
    I32(i32),
    I64(i64),
    I128(i128),
    Bool(bool),
    Char(char),
    F32(u32),
    F64(u64),
    Str(String),
    StructValue(Box<StructValue>),
    EnumValue(Box<EnumValue>),
    TupleStructValue(TupleStructValue),
    TupleValue(TupleValue),
    List(Vec<Value>),
    /// A map's entries, in strictly ascending order of keys in a well-formed
    /// value (`dict_insert` keeps that order).
    Dict(Vec<(Value, Value)>),
}

/// A struct with named fields, in declaration order.
#[derive(Debug)]
pub struct StructValue {
    /// Fields by name, names distinct in a well-formed value (`set_field` keeps them so).
    pub fields: Vec<(String, Value)>,
}

/// A tuple of positional fields.
#[derive(Debug)]
pub struct TupleValue {
    pub fields: Vec<Value>,
}

/// A tuple struct: a named wrapper around positional fields.
#[derive(Debug)]
pub struct TupleStructValue {
    pub tuple: TupleValue,
}

/// The fields of the active variant of an enum.
#[derive(Debug)]
pub enum VariantFields {
    Struct(StructValue),
    Tuple(TupleValue),
    Unit,
}

/// An enum value: the name of its active variant and that variant's fields.
#[derive(Debug)]
pub struct EnumValue {
    pub variant: String,
    pub fields: VariantFields,
}

pub open spec fn text_terms(s: Seq<char>) -> Seq<Term> {
    Seq::new(s.len(), |j: int| Term::Atom(0, s[j] as int))
}

pub open spec fn text_term(s: Seq<char>) -> Term {
    Term::Branch(15, text_terms(s))
}

/// Bit pattern of a binary32 float mapped to its place in the IEEE-754 total order.
pub open spec fn f32_key(bits: u32) -> int {
    if bits >= 0x8000_0000 {
        -1 - (bits - 0x8000_0000)
    } else {
        bits as int
    }
}

/// Bit pattern of a binary64 float mapped to its place in the IEEE-754 total order.
pub open spec fn f64_key(bits: u64) -> int {
    if bits >= 0x8000_0000_0000_0000 {
        -1 - (bits - 0x8000_0000_0000_0000)
    } else {
        bits as int
    }
}

pub open spec fn named_terms(f: Vec<(String, Value)>) -> Seq<Term>
    decreases f, 0int,
{
    Seq::new(
        f.len() as nat,
        |j: int|
            if 0 <= j < f.len() {
                Term::Branch(0, seq![text_term(f[j].0@), value_term(f[j].1)])
            } else {
                Term::Atom(0, 0)
            },
    )
}

pub open spec fn list_terms(l: Vec<Value>) -> Seq<Term>
    decreases l, 0int,
{
    Seq::new(
        l.len() as nat,
        |j: int|
            if 0 <= j < l.len() {
                value_term(l[j])
            } else {
                Term::Atom(0, 0)
            },
    )
}

pub open spec fn entry_terms(m: Vec<(Value, Value)>) -> Seq<Term>
    decreases m, 0int,
{
    Seq::new(
        m.len() as nat,
        |j: int|
            if 0 <= j < m.len() {
                Term::Branch(0, seq![value_term(m[j].0), value_term(m[j].1)])
            } else {
                Term::Atom(0, 0)
            },
    )
}

pub open spec fn variant_term(f: VariantFields) -> Term
    decreases f, 1int,
{
    match f {
        VariantFields::Struct(s) => Term::Branch(0, named_terms(s.fields)),
        VariantFields::Tuple(t) => Term::Branch(1, list_terms(t.fields)),
        VariantFields::Unit => Term::Branch(2, Seq::empty()),
    }
}

/// The mathematical view of a value. Its first tag fixes the order of kinds.
pub open spec fn value_term(v: Value) -> Term
    decreases v, 1int,
{
    match v {
        Value::Usize(n) => Term::Atom(0, n as int),
        Value::U8(n) => Term::Atom(1, n as int),
        Value::U16(n) => Term::Atom(2, n as int),
        Value::U32(n) => Term::Atom(3, n as int),
        Value::U64(n) => Term::Atom(4, n as int),
        Value::U128(n) => Term::Atom(5, n as int),
        Value::I8(n) => Term::Atom(6, n as int),
        Value::I16(n) => Term::Atom(7, n as int),
        Value::I32(n) => Term::Atom(8, n as int),
        Value::I64(n) => Term::Atom(9, n as int),
        Value::I128(n) => Term::Atom(10, n as int),
        Value::Bool(b) => Term::Atom(11, if b { 1 } else { 0 }),
        Value::Char(c) => Term::Atom(12, c as int),
        Value::F32(b) => Term::Atom(13, f32_key(b)),
        Value::F64(b) => Term::Atom(14, f64_key(b)),
        Value::Str(s) => text_term(s@),
        Value::StructValue(s) => Term::Branch(16, named_terms(s.fields)),
        Value::EnumValue(e) => Term::Branch(
            17,
            seq![text_term(e.variant@), variant_term(e.fields)],
        ),
        Value::TupleStructValue(t) => Term::Branch(18, list_terms(t.tuple.fields)),
        Value::TupleValue(t) => Term::Branch(19, list_terms(t.fields)),
        Value::List(l) => Term::Branch(20, list_terms(l)),
        Value::Dict(m) => Term::Branch(21, entry_terms(m)),
    }
}

impl View for Value {
    type V = Term;

    open spec fn view(&self) -> Term {
        value_term(*self)
    }
}

} // verus!
