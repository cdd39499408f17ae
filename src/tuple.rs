//! Tuple and tuple-struct containers, and conversions of containers from values.
use vstd::prelude::*;
use crate::order::{Term, tag, children};
use crate::value::{Value, TupleValue, TupleStructValue, StructValue, EnumValue, list_terms, named_terms, variant_term, text_term};
use crate::patch::{patch_term, patch_seq};

verus! {

impl View for TupleValue {
    type V = Seq<Term>;

    open spec fn view(&self) -> Seq<Term> {
        list_terms(self.fields)
    }
}

impl View for TupleStructValue {
    type V = Seq<Term>;

    open spec fn view(&self) -> Seq<Term> {
        list_terms(self.tuple.fields)
    }
}

/// The children of `t` when it is a value of kind `kind`.
pub open spec fn shape_from(t: Term, kind: int) -> Option<Seq<Term>> {
    if t is Branch && tag(t) == kind {
        Some(children(t))
    } else {
        None
    }
}

pub open spec fn tuple_kind() -> int {
    19
}

pub open spec fn tuple_struct_kind() -> int {
    18
}

impl TupleValue {
    /// A tuple with no fields.
    pub fn new() -> (r: TupleValue)
        ensures
            r@ == Seq::<Term>::empty(),
    {
        let r = TupleValue { fields: Vec::new() };
        assert(r@ =~= Seq::<Term>::empty());
        r
    }

    /// This tuple with one more field at the end.
    pub fn with_field(self, value: Value) -> (r: TupleValue)
        ensures
            r@ == self@.push(value@),
    {
        let mut r = self;
        r.push_field(value);
        r
    }

    /// Appends a field.
    pub fn push_field(&mut self, value: Value)
        ensures
            final(self)@ == old(self)@.push(value@),
    {
        let ghost v = value@;
        self.fields.push(value);
        assert(final(self)@ =~= old(self)@.push(v));
    }

    /// The field at `index`, if there is one.
    pub fn field(&self, index: usize) -> (r: Option<&Value>)
        ensures
            r is Some <==> index < self@.len(),
            r matches Some(v) ==> v@ == self@[index as int],
    {
        if index < self.fields.len() {
            Some(&self.fields[index])
        } else {
            None
        }
    }

    pub fn fields_len(&self) -> (r: usize)
        ensures
            r == self@.len(),
    {
        self.fields.len()
    }

    /// Patches this tuple with `other`, field by field where `other` is a
    /// tuple; any other value is ignored.
    pub fn patch(&mut self, other: &Value)
        ensures
            Value::TupleValue(*final(self))@ == patch_term(Value::TupleValue(*old(self))@, other@),
    {
        let mut fields: Vec<Value> = Vec::new();
        std::mem::swap(&mut fields, &mut self.fields);
        let mut me = Value::TupleValue(TupleValue { fields });
        me.patch(other);
        match me {
            Value::TupleValue(t) => {
                self.fields = t.fields;
            },
            _ => {},
        }
    }

    /// A deep copy of this tuple as a value.
    pub fn to_value(&self) -> (r: Value)
        ensures
            r@ == Term::Branch(tuple_kind(), self@),
    {
        Value::TupleValue(self.to_tuple_value())
    }

    /// The tuple that `value` holds, copied; `None` for a value of another kind.
    pub fn from_value(value: &Value) -> (r: Option<TupleValue>)
        ensures
            r matches Some(t) ==> shape_from(value@, tuple_kind()) == Some(t@),
            r is None ==> shape_from(value@, tuple_kind()) is None,
    {
        match value {
            Value::TupleValue(t) => Some(t.to_tuple_value()),
            _ => None,
        }
    }
}


impl TupleStructValue {
    /// A tuple struct with no fields.
    pub fn new() -> (r: TupleStructValue)
        ensures
            r@ == Seq::<Term>::empty(),
    {
        TupleStructValue { tuple: TupleValue::new() }
    }

    /// This tuple struct with one more field at the end.
    pub fn with_field(self, value: Value) -> (r: TupleStructValue)
        ensures
            r@ == self@.push(value@),
    {
        TupleStructValue { tuple: self.tuple.with_field(value) }
    }

    /// A tuple struct with the given fields, in order.
    pub fn from_fields(fields: Vec<Value>) -> (r: TupleStructValue)
        ensures
            r@ == list_terms(fields),
    {
        TupleStructValue { tuple: TupleValue { fields } }
    }

    /// The same as `with_field`.
    pub fn with_element(self, value: Value) -> (r: TupleStructValue)
        ensures
            r@ == self@.push(value@),
    {
        self.with_field(value)
    }

    /// Appends a field.
    pub fn push_field(&mut self, value: Value)
        ensures
            final(self)@ == old(self)@.push(value@),
    {
        self.tuple.push_field(value);
    }

    /// The same as `push_field`.
    pub fn push_element(&mut self, value: Value)
        ensures
            final(self)@ == old(self)@.push(value@),
    {
        self.push_field(value);
    }

    /// The field at `index`, if there is one.
    pub fn field(&self, index: usize) -> (r: Option<&Value>)
        ensures
            r is Some <==> index < self@.len(),
            r matches Some(v) ==> v@ == self@[index as int],
    {
        self.tuple.field(index)
    }

    /// The same as `field`.
    pub fn element(&self, index: usize) -> (r: Option<&Value>)
        ensures
            r is Some <==> index < self@.len(),
            r matches Some(v) ==> v@ == self@[index as int],
    {
        self.tuple.field(index)
    }

    pub fn fields_len(&self) -> (r: usize)
        ensures
            r == self@.len(),
    {
        self.tuple.fields_len()
    }

    /// An iterator over the fields, in order.
    pub fn fields(&self) -> (r: Iter<'_>)
        ensures
            r.tuple_struct == self,
            r.index == 0,
    {
        Iter::new(self)
    }

    /// Patches this tuple struct with `other`, field by field where `other`
    /// is a tuple struct; any other value is ignored.
    pub fn patch(&mut self, other: &Value)
        ensures
            Value::TupleStructValue(*final(self))@ == patch_term(
                Value::TupleStructValue(*old(self))@,
                other@,
            ),
    {
        let mut fields: Vec<Value> = Vec::new();
        std::mem::swap(&mut fields, &mut self.tuple.fields);
        let mut me = Value::TupleStructValue(TupleStructValue { tuple: TupleValue { fields } });
        me.patch(other);
        match me {
            Value::TupleStructValue(t) => {
                self.tuple.fields = t.tuple.fields;
            },
            _ => {},
        }
    }

    /// A deep copy of this tuple struct as a value.
    pub fn to_value(&self) -> (r: Value)
        ensures
            r@ == Term::Branch(tuple_struct_kind(), self@),
    {
        Value::TupleStructValue(self.to_tuple_struct_value())
    }

    /// The tuple struct that `value` holds, copied; `None` for a value of
    /// another kind.
    pub fn from_value(value: &Value) -> (r: Option<TupleStructValue>)
        ensures
            r matches Some(t) ==> shape_from(value@, tuple_struct_kind()) == Some(t@),
            r is None ==> shape_from(value@, tuple_struct_kind()) is None,
    {
        match value {
            Value::TupleStructValue(t) => Some(t.to_tuple_struct_value()),
            _ => None,
        }
    }
}

impl Default for TupleStructValue {
    fn default() -> (r: TupleStructValue)
        ensures
            r@ == Seq::<Term>::empty(),
    {
        TupleStructValue::new()
    }
}

/// Positional access to the fields of a tuple struct.
pub trait TupleStruct {
    /// The views of the fields, in order.
    spec fn fields_view(&self) -> Seq<Term>;

    fn field(&self, index: usize) -> (r: Option<&Value>)
        ensures
            r is Some <==> index < self.fields_view().len(),
            r matches Some(v) ==> v@ == self.fields_view()[index as int],
    ;

    fn fields_len(&self) -> (r: usize)
        ensures
            r == self.fields_view().len(),
    ;
}

impl TupleStruct for TupleStructValue {
    open spec fn fields_view(&self) -> Seq<Term> {
        self@
    }

    fn field(&self, index: usize) -> (r: Option<&Value>) {
        self.tuple.field(index)
    }

    fn fields_len(&self) -> (r: usize) {
        self.tuple.fields_len()
    }
}

/// Walks the fields of a tuple struct from the first.
pub struct Iter<'a> {
    pub tuple_struct: &'a TupleStructValue,
    pub index: usize,
}

impl<'a> Iter<'a> {
    pub fn new(tuple_struct: &'a TupleStructValue) -> (r: Iter<'a>)
        ensures
            r.tuple_struct == tuple_struct,
            r.index == 0,
    {
        Iter { tuple_struct, index: 0 }
    }

    /// The next field, or `None` past the last one.
    pub fn next(&mut self) -> (r: Option<&'a Value>)
        ensures
            final(self).tuple_struct == old(self).tuple_struct,
            r is Some <==> old(self).index < old(self).tuple_struct@.len(),
            r matches Some(v) ==> v@ == old(self).tuple_struct@[old(self).index as int]
                && final(self).index == old(self).index + 1,
            r is None ==> final(self).index == old(self).index,
    {
        let r = self.tuple_struct.field(self.index);
        if r.is_some() {
            self.index = self.index + 1;
        }
        r
    }
}

pub open spec fn struct_kind() -> int {
    16
}

pub open spec fn enum_kind() -> int {
    17
}

impl StructValue {
    /// A deep copy of this struct as a value.
    pub fn to_value(&self) -> (r: Value)
        ensures
            r@ == Term::Branch(struct_kind(), named_terms(self.fields)),
    {
        Value::StructValue(Box::new(self.to_struct_value()))
    }

    /// The struct that `value` holds, copied; `None` for a value of another kind.
    pub fn from_value(value: &Value) -> (r: Option<StructValue>)
        ensures
            r matches Some(s) ==> shape_from(value@, struct_kind()) == Some(named_terms(s.fields)),
            r is None ==> shape_from(value@, struct_kind()) is None,
    {
        match value {
            Value::StructValue(s) => Some(s.to_struct_value()),
            _ => None,
        }
    }
}

impl EnumValue {
    /// A deep copy of this enum value as a value.
    pub fn to_value(&self) -> (r: Value)
        ensures
            r@ == Term::Branch(enum_kind(), seq![text_term(self.variant@), variant_term(self.fields)]),
    {
        Value::EnumValue(Box::new(self.to_enum_value()))
    }

    /// The enum value that `value` holds, copied; `None` for a value of another kind.
    pub fn from_value(value: &Value) -> (r: Option<EnumValue>)
        ensures
            r matches Some(e) ==> shape_from(value@, enum_kind()) == Some(
                seq![text_term(e.variant@), variant_term(e.fields)],
            ),
            r is None ==> shape_from(value@, enum_kind()) is None,
    {
        match value {
            Value::EnumValue(e) => Some(e.to_enum_value()),
            _ => None,
        }
    }
}

/// Which of the eight shapes a value has.
#[derive(Clone, Copy, Debug, PartialEq, Eq, Structural)]
pub enum ReflectKind {
    Struct,
    TupleStruct,
    Tuple,
    Enum,
    List,
    Dict,
    Scalar,
    Opaque,
}

pub open spec fn kind_of_tag(k: int) -> ReflectKind {
    if k <= 15 {
        ReflectKind::Scalar
    } else if k == 16 {
        ReflectKind::Struct
    } else if k == 17 {
        ReflectKind::Enum
    } else if k == 18 {
        ReflectKind::TupleStruct
    } else if k == 19 {
        ReflectKind::Tuple
    } else if k == 20 {
        ReflectKind::List
    } else {
        ReflectKind::Dict
    }
}

impl Value {
    /// The shape this value behaves as: numbers, `bool`, `char`, floats and
    /// strings are scalars; each aggregate kind is its own shape.
    pub fn reflect_kind(&self) -> (r: ReflectKind)
        ensures
            r == kind_of_tag(tag(self@)),
    {
        let k = self.kind_index();
        if k <= 15 {
            ReflectKind::Scalar
        } else if k == 16 {
            ReflectKind::Struct
        } else if k == 17 {
            ReflectKind::Enum
        } else if k == 18 {
            ReflectKind::TupleStruct
        } else if k == 19 {
            ReflectKind::Tuple
        } else if k == 20 {
            ReflectKind::List
        } else {
            ReflectKind::Dict
        }
    }
}

impl Value {
    /// Any value converts back to a value: a deep copy.
    pub fn from_value(value: &Value) -> (r: Option<Value>)
        ensures
            r matches Some(v) && v@ == value@,
    {
        Some(value.to_value())
    }
}

/// Round trip: converting a container to a value and back gives back the same
/// container (`from_value(&x.to_value()) == Some(x)`, up to views), for tuples,
/// tuple structs, structs and enum values alike; for a plain value it is a copy.
pub proof fn from_value_of_to_value(kind: int, children: Seq<Term>)
    ensures
        shape_from(Term::Branch(kind, children), kind) == Some(children),
{
}

} // verus!
