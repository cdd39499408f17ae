//! Three-way comparison and equality of values, with the laws of the order.
use vstd::prelude::*;
use crate::order::{
    Term, tag, cmp_int, term_cmp, seq_cmp, lemma_term_cmp_antisym, lemma_term_cmp_eq, lemma_term_cmp_trans,
};
use crate::value::{
    Value, EnumValue, VariantFields, value_term, text_terms, list_terms, named_terms,
    entry_terms, f32_key, f64_key, text_term, variant_term,
};

verus! {

impl Value {
    /// Position of this value's kind in the order of kinds.
    pub fn kind_index(&self) -> (r: u8)
        ensures
            r as int == tag(self@),
    {
        match self {
            Value::Usize(_) => 0,
            Value::U8(_) => 1,
            Value::U16(_) => 2,
            Value::U32(_) => 3,
            Value::U64(_) => 4,
            Value::U128(_) => 5,
            Value::I8(_) => 6,
            Value::I16(_) => 7,
            Value::I32(_) => 8,
            Value::I64(_) => 9,
            Value::I128(_) => 10,
            Value::Bool(_) => 11,
            Value::Char(_) => 12,
            Value::F32(_) => 13,
            Value::F64(_) => 14,
            Value::Str(_) => 15,
            Value::StructValue(_) => 16,
            Value::EnumValue(_) => 17,
            Value::TupleStructValue(_) => 18,
            Value::TupleValue(_) => 19,
            Value::List(_) => 20,
            Value::Dict(_) => 21,
        }
    }
}

fn cmp_u128(x: u128, y: u128) -> (r: i8)
    ensures
        r as int == cmp_int(x as int, y as int),
{
    if x < y {
        -1
    } else if x == y {
        0
    } else {
        1
    }
}

fn cmp_i128(x: i128, y: i128) -> (r: i8)
    ensures
        r as int == cmp_int(x as int, y as int),
{
    if x < y {
        -1
    } else if x == y {
        0
    } else {
        1
    }
}

fn f32_order_key(bits: u32) -> (k: i64)
    ensures
        k as int == f32_key(bits),
{
    if bits >= 0x8000_0000 {
        -1 - ((bits - 0x8000_0000) as i64)
    } else {
        bits as i64
    }
}

fn f64_order_key(bits: u64) -> (k: i128)
    ensures
        k as int == f64_key(bits),
{
    if bits >= 0x8000_0000_0000_0000 {
        -1 - ((bits - 0x8000_0000_0000_0000) as i128)
    } else {
        bits as i128
    }
}

fn compare_text(x: &String, y: &String) -> (r: i8)
    ensures
        r as int == seq_cmp(text_terms(x@), text_terms(y@), 0),
{
    let xs = x.as_str();
    let ys = y.as_str();
    let n = xs.unicode_len();
    let m = ys.unicode_len();
    let mut i: usize = 0;
    while i < n && i < m
        invariant
            0 <= i <= n,
            i <= m,
            n == x@.len(),
            m == y@.len(),
            xs@ == x@,
            ys@ == y@,
            seq_cmp(text_terms(x@), text_terms(y@), 0) == seq_cmp(
                text_terms(x@),
                text_terms(y@),
                i as int,
            ),
        decreases n - i,
    {
        let a = xs.get_char(i);
        let b = ys.get_char(i);
        proof {
            assert(text_terms(x@)[i as int] == Term::Atom(0, a as int));
            assert(text_terms(y@)[i as int] == Term::Atom(0, b as int));
            assert(term_cmp(text_terms(x@)[i as int], text_terms(y@)[i as int]) == cmp_int(
                a as int,
                b as int,
            ));
            assert(seq_cmp(text_terms(x@), text_terms(y@), i as int) == if cmp_int(a as int, b as int)
                != 0 {
                cmp_int(a as int, b as int)
            } else {
                seq_cmp(text_terms(x@), text_terms(y@), i + 1)
            });
        }
        if a != b {
            return if (a as u32) < (b as u32) {
                -1
            } else {
                1
            };
        }
        i = i + 1;
    }
    if i < n {
        1
    } else if i < m {
        -1
    } else {
        0
    }
}

proof fn lemma_pair_cmp(a: Term, b: Term, c: Term, d: Term)
    ensures
        term_cmp(Term::Branch(0, seq![a, b]), Term::Branch(0, seq![c, d])) == if term_cmp(a, c)
            != 0 {
            term_cmp(a, c)
        } else {
            term_cmp(b, d)
        },
{
    let s = seq![a, b];
    let r = seq![c, d];
    assert(s[0] == a && s[1] == b);
    assert(r[0] == c && r[1] == d);
    lemma_term_cmp_antisym(b, d);
    assert(seq_cmp(s, r, 2) == 0);
    assert(seq_cmp(s, r, 1) == term_cmp(b, d));
    assert(seq_cmp(s, r, 0) == if term_cmp(a, c) != 0 {
        term_cmp(a, c)
    } else {
        term_cmp(b, d)
    });
}

proof fn lemma_text_cmp(x: Seq<char>, y: Seq<char>)
    ensures
        term_cmp(text_term(x), text_term(y)) == seq_cmp(text_terms(x), text_terms(y), 0),
{
}

fn compare_list(x: &Vec<Value>, y: &Vec<Value>) -> (r: i8)
    ensures
        r as int == seq_cmp(list_terms(*x), list_terms(*y), 0),
    decreases x, 0int,
{
    let n = x.len();
    let m = y.len();
    let mut i: usize = 0;
    while i < n && i < m
        invariant
            0 <= i <= n,
            i <= m,
            n == x.len(),
            m == y.len(),
            seq_cmp(list_terms(*x), list_terms(*y), 0) == seq_cmp(
                list_terms(*x),
                list_terms(*y),
                i as int,
            ),
        decreases n - i,
    {
        let c = compare(&x[i], &y[i]);
        if c != 0 {
            return c;
        }
        i = i + 1;
    }
    if i < n {
        1
    } else if i < m {
        -1
    } else {
        0
    }
}

fn compare_named(x: &Vec<(String, Value)>, y: &Vec<(String, Value)>) -> (r: i8)
    ensures
        r as int == seq_cmp(named_terms(*x), named_terms(*y), 0),
    decreases x, 0int,
{
    let n = x.len();
    let m = y.len();
    let mut i: usize = 0;
    while i < n && i < m
        invariant
            0 <= i <= n,
            i <= m,
            n == x.len(),
            m == y.len(),
            seq_cmp(named_terms(*x), named_terms(*y), 0) == seq_cmp(
                named_terms(*x),
                named_terms(*y),
                i as int,
            ),
        decreases n - i,
    {
        proof {
            lemma_pair_cmp(
                text_term(x[i as int].0@),
                value_term(x[i as int].1),
                text_term(y[i as int].0@),
                value_term(y[i as int].1),
            );
            lemma_text_cmp(x[i as int].0@, y[i as int].0@);
        }
        let c = compare_text(&x[i].0, &y[i].0);
        if c != 0 {
            return c;
        }
        let c = compare(&x[i].1, &y[i].1);
        if c != 0 {
            return c;
        }
        i = i + 1;
    }
    if i < n {
        1
    } else if i < m {
        -1
    } else {
        0
    }
}

fn compare_entries(x: &Vec<(Value, Value)>, y: &Vec<(Value, Value)>) -> (r: i8)
    ensures
        r as int == seq_cmp(entry_terms(*x), entry_terms(*y), 0),
    decreases x, 0int,
{
    let n = x.len();
    let m = y.len();
    let mut i: usize = 0;
    while i < n && i < m
        invariant
            0 <= i <= n,
            i <= m,
            n == x.len(),
            m == y.len(),
            seq_cmp(entry_terms(*x), entry_terms(*y), 0) == seq_cmp(
                entry_terms(*x),
                entry_terms(*y),
                i as int,
            ),
        decreases n - i,
    {
        proof {
            lemma_pair_cmp(
                value_term(x[i as int].0),
                value_term(x[i as int].1),
                value_term(y[i as int].0),
                value_term(y[i as int].1),
            );
        }
        let c = compare(&x[i].0, &y[i].0);
        if c != 0 {
            return c;
        }
        let c = compare(&x[i].1, &y[i].1);
        if c != 0 {
            return c;
        }
        i = i + 1;
    }
    if i < n {
        1
    } else if i < m {
        -1
    } else {
        0
    }
}

fn compare_enum(x: &EnumValue, y: &EnumValue) -> (r: i8)
    ensures
        r as int == seq_cmp(
            seq![text_term(x.variant@), variant_term(x.fields)],
            seq![text_term(y.variant@), variant_term(y.fields)],
            0,
        ),
    decreases x, 0int,
{
    let ghost fx = variant_term(x.fields);
    let ghost fy = variant_term(y.fields);
    proof {
        let s = seq![text_term(x.variant@), fx];
        let r = seq![text_term(y.variant@), fy];
        assert(s[0] == text_term(x.variant@) && s[1] == fx);
        assert(r[0] == text_term(y.variant@) && r[1] == fy);
        lemma_text_cmp(x.variant@, y.variant@);
        lemma_term_cmp_antisym(fx, fy);
        assert(seq_cmp(s, r, 2) == 0);
        assert(seq_cmp(s, r, 1) == term_cmp(fx, fy));
    }
    let c = compare_text(&x.variant, &y.variant);
    if c != 0 {
        return c;
    }
    match &x.fields {
        VariantFields::Struct(s) => match &y.fields {
            VariantFields::Struct(t) => compare_named(&s.fields, &t.fields),
            _ => -1,
        },
        VariantFields::Tuple(s) => match &y.fields {
            VariantFields::Struct(_) => 1,
            VariantFields::Tuple(t) => compare_list(&s.fields, &t.fields),
            VariantFields::Unit => -1,
        },
        VariantFields::Unit => match &y.fields {
            VariantFields::Unit => 0,
            _ => 1,
        },
    }
}

/// Three-way comparison of two values: `-1`, `0` or `1`, as `term_cmp` orders their views.
pub fn compare(a: &Value, b: &Value) -> (r: i8)
    ensures
        r as int == term_cmp(a@, b@),
    decreases a, 1int,
{
    let ka = a.kind_index();
    let kb = b.kind_index();
    if ka != kb {
        return if ka < kb {
            -1
        } else {
            1
        };
    }
    match a {
        Value::Usize(x) => match b {
            Value::Usize(y) => cmp_u128(*x as u128, *y as u128),
            _ => 0,
        },
        Value::U8(x) => match b {
            Value::U8(y) => cmp_u128(*x as u128, *y as u128),
            _ => 0,
        },
        Value::U16(x) => match b {
            Value::U16(y) => cmp_u128(*x as u128, *y as u128),
            _ => 0,
        },
        Value::U32(x) => match b {
            Value::U32(y) => cmp_u128(*x as u128, *y as u128),
            _ => 0,
        },
        Value::U64(x) => match b {
            Value::U64(y) => cmp_u128(*x as u128, *y as u128),
            _ => 0,
        },
        Value::U128(x) => match b {
            Value::U128(y) => cmp_u128(*x as u128, *y as u128),
            _ => 0,
        },
        Value::I8(x) => match b {
            Value::I8(y) => cmp_i128(*x as i128, *y as i128),
            _ => 0,
        },
        Value::I16(x) => match b {
            Value::I16(y) => cmp_i128(*x as i128, *y as i128),
            _ => 0,
        },
        Value::I32(x) => match b {
            Value::I32(y) => cmp_i128(*x as i128, *y as i128),
            _ => 0,
        },
        Value::I64(x) => match b {
            Value::I64(y) => cmp_i128(*x as i128, *y as i128),
            _ => 0,
        },
        Value::I128(x) => match b {
            Value::I128(y) => cmp_i128(*x as i128, *y as i128),
            _ => 0,
        },
        Value::Bool(x) => match b {
            Value::Bool(y) => cmp_u128(if *x { 1 } else { 0 }, if *y { 1 } else { 0 }),
            _ => 0,
        },
        Value::Char(x) => match b {
            Value::Char(y) => cmp_u128(*x as u32 as u128, *y as u32 as u128),
            _ => 0,
        },
        Value::F32(x) => match b {
            Value::F32(y) => cmp_i128(f32_order_key(*x) as i128, f32_order_key(*y) as i128),
            _ => 0,
        },
        Value::F64(x) => match b {
            Value::F64(y) => cmp_i128(f64_order_key(*x), f64_order_key(*y)),
            _ => 0,
        },
        Value::Str(x) => match b {
            Value::Str(y) => compare_text(x, y),
            _ => 0,
        },
        Value::StructValue(x) => match b {
            Value::StructValue(y) => compare_named(&x.fields, &y.fields),
            _ => 0,
        },
        Value::EnumValue(x) => match b {
            Value::EnumValue(y) => {
                proof {
                    assert(a@ == Term::Branch(
                        17,
                        seq![text_term(x.variant@), variant_term(x.fields)],
                    ));
                    assert(b@ == Term::Branch(
                        17,
                        seq![text_term(y.variant@), variant_term(y.fields)],
                    ));
                }
                compare_enum(x, y)
            },
            _ => 0,
        },
        Value::TupleStructValue(x) => match b {
            Value::TupleStructValue(y) => compare_list(&x.tuple.fields, &y.tuple.fields),
            _ => 0,
        },
        Value::TupleValue(x) => match b {
            Value::TupleValue(y) => compare_list(&x.fields, &y.fields),
            _ => 0,
        },
        Value::List(x) => match b {
            Value::List(y) => compare_list(x, y),
            _ => 0,
        },
        Value::Dict(x) => match b {
            Value::Dict(y) => compare_entries(x, y),
            _ => 0,
        },
    }
}

/// The order on values is antisymmetric: swapping the operands reverses the
/// result, and the result is always one of `-1`, `0` or `1`.
pub proof fn value_order_antisymmetric(a: Value, b: Value)
    ensures
        term_cmp(a@, b@) == -term_cmp(b@, a@),
        term_cmp(a@, b@) == -1 || term_cmp(a@, b@) == 0 || term_cmp(a@, b@) == 1,
{
    lemma_term_cmp_antisym(a@, b@);
}

/// Two values compare equal exactly when their views are equal; so of
/// `a < b`, `a == b` and `a > b` exactly one holds. Floats take part through
/// their bit patterns, so every NaN payload has its own place in the order.
pub proof fn value_order_trichotomous(a: Value, b: Value)
    ensures
        term_cmp(a@, b@) == 0 <==> a@ == b@,
        term_cmp(a@, b@) < 0 || a@ == b@ || term_cmp(a@, b@) > 0,
{
    lemma_term_cmp_antisym(a@, b@);
    lemma_term_cmp_eq(a@, b@);
}

/// The order on values is transitive.
pub proof fn value_order_transitive(a: Value, b: Value, c: Value)
    requires
        term_cmp(a@, b@) < 0,
        term_cmp(b@, c@) < 0,
    ensures
        term_cmp(a@, c@) < 0,
{
    lemma_term_cmp_trans(a@, b@, c@);
}

impl PartialEq for Value {
    fn eq(&self, other: &Value) -> (r: bool)
        ensures
            r == (self@ == other@),
    {
        proof {
            lemma_term_cmp_eq(self@, other@);
        }
        compare(self, other) == 0
    }
}

impl vstd::std_specs::cmp::PartialEqSpecImpl for Value {
    open spec fn obeys_eq_spec() -> bool {
        true
    }

    open spec fn eq_spec(&self, other: &Value) -> bool {
        self@ == other@
    }
}

impl Eq for Value {
}

} // verus!
