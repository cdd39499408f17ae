//! Conversions of scalars and containers into values.
use vstd::prelude::*;
use crate::value::{Value, StructValue, EnumValue, TupleValue, TupleStructValue};

verus! {

impl From<usize> for Value {
    fn from(v: usize) -> (r: Value)
        ensures
            r == Value::Usize(v),
    {
        Value::Usize(v)
    }
}

impl vstd::std_specs::convert::FromSpecImpl<usize> for Value {
    open spec fn obeys_from_spec() -> bool {
        true
    }

    open spec fn from_spec(v: usize) -> Value {
        Value::Usize(v)
    }
}

impl From<u8> for Value {
    fn from(v: u8) -> (r: Value)
        ensures
            r == Value::U8(v),
    {
        Value::U8(v)
    }
}

impl vstd::std_specs::convert::FromSpecImpl<u8> for Value {
    open spec fn obeys_from_spec() -> bool {
        true
    }

    open spec fn from_spec(v: u8) -> Value {
        Value::U8(v)
    }
}

impl From<u16> for Value {
    fn from(v: u16) -> (r: Value)
        ensures
            r == Value::U16(v),
    {
        Value::U16(v)
    }
}

impl vstd::std_specs::convert::FromSpecImpl<u16> for Value {
    open spec fn obeys_from_spec() -> bool {
        true
    }

    open spec fn from_spec(v: u16) -> Value {
        Value::U16(v)
    }
}

impl From<u32> for Value {
    fn from(v: u32) -> (r: Value)
        ensures
            r == Value::U32(v),
    {
        Value::U32(v)
    }
}

impl vstd::std_specs::convert::FromSpecImpl<u32> for Value {
    open spec fn obeys_from_spec() -> bool {
        true
    }

    open spec fn from_spec(v: u32) -> Value {
        Value::U32(v)
    }
}

impl From<u64> for Value {
    fn from(v: u64) -> (r: Value)
        ensures
            r == Value::U64(v),
    {
        Value::U64(v)
    }
}

impl vstd::std_specs::convert::FromSpecImpl<u64> for Value {
    open spec fn obeys_from_spec() -> bool {
        true
    }

    open spec fn from_spec(v: u64) -> Value {
        Value::U64(v)
    }
}

impl From<u128> for Value {
    fn from(v: u128) -> (r: Value)
        ensures
            r == Value::U128(v),
    {
        Value::U128(v)
    }
}

impl vstd::std_specs::convert::FromSpecImpl<u128> for Value {
    open spec fn obeys_from_spec() -> bool {
        true
    }

    open spec fn from_spec(v: u128) -> Value {
        Value::U128(v)
    }
}

impl From<i8> for Value {
    fn from(v: i8) -> (r: Value)
        ensures
            r == Value::I8(v),
    {
        Value::I8(v)
    }
}

impl vstd::std_specs::convert::FromSpecImpl<i8> for Value {
    open spec fn obeys_from_spec() -> bool {
        true
    }

    open spec fn from_spec(v: i8) -> Value {
        Value::I8(v)
    }
}

impl From<i16> for Value {
    fn from(v: i16) -> (r: Value)
        ensures
            r == Value::I16(v),
    {
        Value::I16(v)
    }
}

impl vstd::std_specs::convert::FromSpecImpl<i16> for Value {
    open spec fn obeys_from_spec() -> bool {
        true
    }

    open spec fn from_spec(v: i16) -> Value {
        Value::I16(v)
    }
}

impl From<i32> for Value {
    fn from(v: i32) -> (r: Value)
        ensures
            r == Value::I32(v),
    {
        Value::I32(v)
    }
}

impl vstd::std_specs::convert::FromSpecImpl<i32> for Value {
    open spec fn obeys_from_spec() -> bool {
        true
    }

    open spec fn from_spec(v: i32) -> Value {
        Value::I32(v)
    }
}

impl From<i64> for Value {
    fn from(v: i64) -> (r: Value)
        ensures
            r == Value::I64(v),
    {
        Value::I64(v)
    }
}

impl vstd::std_specs::convert::FromSpecImpl<i64> for Value {
    open spec fn obeys_from_spec() -> bool {
        true
    }

    open spec fn from_spec(v: i64) -> Value {
        Value::I64(v)
    }
}

impl From<i128> for Value {
    fn from(v: i128) -> (r: Value)
        ensures
            r == Value::I128(v),
    {
        Value::I128(v)
    }
}

impl vstd::std_specs::convert::FromSpecImpl<i128> for Value {
    open spec fn obeys_from_spec() -> bool {
        true
    }

    open spec fn from_spec(v: i128) -> Value {
        Value::I128(v)
    }
}

impl From<bool> for Value {
    fn from(v: bool) -> (r: Value)
        ensures
            r == Value::Bool(v),
    {
        Value::Bool(v)
    }
}

impl vstd::std_specs::convert::FromSpecImpl<bool> for Value {
    open spec fn obeys_from_spec() -> bool {
        true
    }

    open spec fn from_spec(v: bool) -> Value {
        Value::Bool(v)
    }
}

impl From<char> for Value {
    fn from(v: char) -> (r: Value)
        ensures
            r == Value::Char(v),
    {
        Value::Char(v)
    }
}

impl vstd::std_specs::convert::FromSpecImpl<char> for Value {
    open spec fn obeys_from_spec() -> bool {
        true
    }

    open spec fn from_spec(v: char) -> Value {
        Value::Char(v)
    }
}

impl From<String> for Value {
    fn from(v: String) -> (r: Value)
        ensures
            r == Value::Str(v),
    {
        Value::Str(v)
    }
}

impl vstd::std_specs::convert::FromSpecImpl<String> for Value {
    open spec fn obeys_from_spec() -> bool {
        true
    }

    open spec fn from_spec(v: String) -> Value {
        Value::Str(v)
    }
}

impl From<TupleValue> for Value {
    fn from(v: TupleValue) -> (r: Value)
        ensures
            r == Value::TupleValue(v),
    {
        Value::TupleValue(v)
    }
}

impl vstd::std_specs::convert::FromSpecImpl<TupleValue> for Value {
    open spec fn obeys_from_spec() -> bool {
        true
    }

    open spec fn from_spec(v: TupleValue) -> Value {
        Value::TupleValue(v)
    }
}

impl From<TupleStructValue> for Value {
    fn from(v: TupleStructValue) -> (r: Value)
        ensures
            r == Value::TupleStructValue(v),
    {
        Value::TupleStructValue(v)
    }
}

impl vstd::std_specs::convert::FromSpecImpl<TupleStructValue> for Value {
    open spec fn obeys_from_spec() -> bool {
        true
    }

    open spec fn from_spec(v: TupleStructValue) -> Value {
        Value::TupleStructValue(v)
    }
}

impl From<StructValue> for Value {
    fn from(v: StructValue) -> (r: Value)
        ensures
            r == Value::StructValue(Box::new(v)),
    {
        Value::StructValue(Box::new(v))
    }
}

impl vstd::std_specs::convert::FromSpecImpl<StructValue> for Value {
    open spec fn obeys_from_spec() -> bool {
        true
    }

    open spec fn from_spec(v: StructValue) -> Value {
        Value::StructValue(Box::new(v))
    }
}

impl From<EnumValue> for Value {
    fn from(v: EnumValue) -> (r: Value)
        ensures
            r == Value::EnumValue(Box::new(v)),
    {
        Value::EnumValue(Box::new(v))
    }
}

impl vstd::std_specs::convert::FromSpecImpl<EnumValue> for Value {
    open spec fn obeys_from_spec() -> bool {
        true
    }

    open spec fn from_spec(v: EnumValue) -> Value {
        Value::EnumValue(Box::new(v))
    }
}

/// `r` is a string value with the characters `s`.
pub open spec fn holds_text(r: Value, s: Seq<char>) -> bool {
    r matches Value::Str(x) && x@ == s
}

impl<'a> From<&'a str> for Value {
    fn from(v: &'a str) -> (r: Value)
        ensures
            holds_text(r, v@),
    {
        Value::Str(v.to_owned())
    }
}

impl<'a> vstd::std_specs::convert::FromSpecImpl<&'a str> for Value {
    open spec fn obeys_from_spec() -> bool {
        false
    }

    open spec fn from_spec(v: &'a str) -> Value {
        choose|r: Value| #[trigger] holds_text(r, v@)
    }
}

} // verus!
