//! Deep copies of values.
use vstd::prelude::*;
use crate::value::{
    Value, StructValue, TupleValue, TupleStructValue, EnumValue, VariantFields, value_term,
    list_terms, named_terms, entry_terms, variant_term,
};

verus! {

fn copy_list(l: &Vec<Value>) -> (r: Vec<Value>)
    ensures
        list_terms(r) == list_terms(*l),
        r.len() == l.len(),
    decreases l, 0int,
{
    let mut out: Vec<Value> = Vec::new();
    let mut i: usize = 0;
    while i < l.len()
        invariant
            i <= l.len(),
            out.len() == i,
            forall|j: int| 0 <= j < i ==> value_term(out[j]) == value_term(l[j]),
        decreases l.len() - i,
    {
        out.push(l[i].to_value());
        i = i + 1;
    }
    assert(list_terms(out) =~= list_terms(*l));
    out
}

fn copy_named(f: &Vec<(String, Value)>) -> (r: Vec<(String, Value)>)
    ensures
        named_terms(r) == named_terms(*f),
        r.len() == f.len(),
        forall|j: int| 0 <= j < f.len() ==> r[j].0@ == f[j].0@ && r[j].1@ == f[j].1@,
    decreases f, 0int,
{
    let mut out: Vec<(String, Value)> = Vec::new();
    let mut i: usize = 0;
    while i < f.len()
        invariant
            i <= f.len(),
            out.len() == i,
            forall|j: int|
                0 <= j < i ==> out[j].0@ == f[j].0@ && value_term(out[j].1) == value_term(f[j].1),
        decreases f.len() - i,
    {
        out.push((f[i].0.clone(), f[i].1.to_value()));
        i = i + 1;
    }
    assert(named_terms(out) =~= named_terms(*f));
    out
}

fn copy_entries(m: &Vec<(Value, Value)>) -> (r: Vec<(Value, Value)>)
    ensures
        entry_terms(r) == entry_terms(*m),
        r.len() == m.len(),
    decreases m, 0int,
{
    let mut out: Vec<(Value, Value)> = Vec::new();
    let mut i: usize = 0;
    while i < m.len()
        invariant
            i <= m.len(),
            out.len() == i,
            forall|j: int|
                0 <= j < i ==> value_term(out[j].0) == value_term(m[j].0) && value_term(out[j].1)
                    == value_term(m[j].1),
        decreases m.len() - i,
    {
        out.push((m[i].0.to_value(), m[i].1.to_value()));
        i = i + 1;
    }
    assert(entry_terms(out) =~= entry_terms(*m));
    out
}

impl StructValue {
    /// A deep copy.
    pub fn to_struct_value(&self) -> (r: StructValue)
        ensures
            named_terms(r.fields) == named_terms(self.fields),
            r.fields.len() == self.fields.len(),
            forall|j: int|
                0 <= j < self.fields.len() ==> r.fields[j].0@ == self.fields[j].0@ && r.fields[j].1@
                    == self.fields[j].1@,
    {
        StructValue { fields: copy_named(&self.fields) }
    }
}

impl TupleValue {
    /// A deep copy.
    pub fn to_tuple_value(&self) -> (r: TupleValue)
        ensures
            list_terms(r.fields) == list_terms(self.fields),
            r.fields.len() == self.fields.len(),
    {
        TupleValue { fields: copy_list(&self.fields) }
    }
}

impl TupleStructValue {
    /// A deep copy.
    pub fn to_tuple_struct_value(&self) -> (r: TupleStructValue)
        ensures
            list_terms(r.tuple.fields) == list_terms(self.tuple.fields),
            r.tuple.fields.len() == self.tuple.fields.len(),
    {
        TupleStructValue { tuple: TupleValue { fields: copy_list(&self.tuple.fields) } }
    }
}

impl EnumValue {
    /// A deep copy.
    pub fn to_enum_value(&self) -> (r: EnumValue)
        ensures
            r.variant@ == self.variant@,
            variant_term(r.fields) == variant_term(self.fields),
    {
        let fields = match &self.fields {
            VariantFields::Struct(s) => VariantFields::Struct(StructValue { fields: copy_named(&s.fields) }),
            VariantFields::Tuple(t) => VariantFields::Tuple(TupleValue { fields: copy_list(&t.fields) }),
            VariantFields::Unit => VariantFields::Unit,
        };
        EnumValue { variant: self.variant.clone(), fields }
    }
}

impl Value {
    /// A snapshot of this value: a deep copy that shares nothing with it.
    pub fn to_value(&self) -> (r: Value)
        ensures
            r@ == self@,
        decreases self, 1int,
    {
        match self {
            Value::Usize(x) => Value::Usize(*x),
            Value::U8(x) => Value::U8(*x),
            Value::U16(x) => Value::U16(*x),
            Value::U32(x) => Value::U32(*x),
            Value::U64(x) => Value::U64(*x),
            Value::U128(x) => Value::U128(*x),
            Value::I8(x) => Value::I8(*x),
            Value::I16(x) => Value::I16(*x),
            Value::I32(x) => Value::I32(*x),
            Value::I64(x) => Value::I64(*x),
            Value::I128(x) => Value::I128(*x),
            Value::Bool(x) => Value::Bool(*x),
            Value::Char(x) => Value::Char(*x),
            Value::F32(x) => Value::F32(*x),
            Value::F64(x) => Value::F64(*x),
            Value::Str(s) => Value::Str(s.clone()),
            Value::StructValue(s) => Value::StructValue(Box::new(StructValue { fields: copy_named(&s.fields) })),
            Value::EnumValue(e) => {
                let fields = match &e.fields {
                    VariantFields::Struct(s) => VariantFields::Struct(StructValue { fields: copy_named(&s.fields) }),
                    VariantFields::Tuple(t) => VariantFields::Tuple(TupleValue { fields: copy_list(&t.fields) }),
                    VariantFields::Unit => VariantFields::Unit,
                };
                Value::EnumValue(Box::new(EnumValue { variant: e.variant.clone(), fields }))
            },
            Value::TupleStructValue(t) => Value::TupleStructValue(
                TupleStructValue { tuple: TupleValue { fields: copy_list(&t.tuple.fields) } },
            ),
            Value::TupleValue(t) => Value::TupleValue(TupleValue { fields: copy_list(&t.fields) }),
            Value::List(l) => Value::List(copy_list(l)),
            Value::Dict(m) => Value::Dict(copy_entries(m)),
        }
    }
}

} // verus!
