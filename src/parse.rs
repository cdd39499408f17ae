//! Reading key paths from text, and the round trip with their display.
use vstd::prelude::*;
use crate::order::Term;
use crate::value::{Value, text_term};
use crate::key_path::{
    Key, KeyPath, KeyView, NamedOrNumbered, decimal, digit_char, escaped, key_text, path_text,
    keys_view, push_char,
};

verus! {

pub open spec fn is_digit(c: char) -> bool {
    '0' <= c && c <= '9'
}

pub open spec fn is_ident_start(c: char) -> bool {
    ('a' <= c && c <= 'z') || ('A' <= c && c <= 'Z') || c == '_'
}

pub open spec fn is_ident_char(c: char) -> bool {
    is_ident_start(c) || is_digit(c)
}

/// A name that `.name` and `::Name` can carry: an identifier.
pub open spec fn is_name(s: Seq<char>) -> bool {
    s.len() > 0 && is_ident_start(s[0]) && forall|j: int| 0 <= j < s.len() ==> is_ident_char(s[j])
}

/// A key that the path grammar can write.
pub open spec fn grammar_key(k: Key) -> bool {
    match k {
        Key::Field(NamedOrNumbered::Named(s)) => is_name(s@),
        Key::Field(NamedOrNumbered::Numbered(_)) => true,
        Key::Get(v) => is_literal(v),
        Key::Variant(s) => is_name(s@),
    }
}

/// A value that has a literal: an integer of any kind, a `bool`, a `char`
/// or a string (not a float, not an aggregate).
pub open spec fn is_literal(v: Value) -> bool {
    match v {
        Value::F32(_) | Value::F64(_) | Value::StructValue(_) | Value::EnumValue(_)
        | Value::TupleStructValue(_) | Value::TupleValue(_) | Value::List(_) | Value::Dict(_) => false,
        _ => true,
    }
}

pub open spec fn grammar_path(p: Seq<Key>) -> bool {
    forall|j: int| 0 <= j < p.len() ==> grammar_key(p[j])
}

pub open spec fn ident_end(s: Seq<char>, i: int) -> int
    decreases s.len() - i,
{
    if i < 0 || i >= s.len() || !is_ident_char(s[i]) {
        i
    } else {
        ident_end(s, i + 1)
    }
}

pub open spec fn digits_end(s: Seq<char>, i: int) -> int
    decreases s.len() - i,
{
    if i < 0 || i >= s.len() || !is_digit(s[i]) {
        i
    } else {
        digits_end(s, i + 1)
    }
}

pub open spec fn digit_value(c: char) -> nat {
    ((c as int) - ('0' as int)) as nat
}

pub open spec fn digits_value(s: Seq<char>) -> nat
    decreases s.len(),
{
    if s.len() == 0 {
        0
    } else {
        digits_value(s.drop_last()) * 10 + digit_value(s.last())
    }
}

/// A decimal number starting at `i`, without leading zeros, that fits a `usize`.
pub open spec fn number_at(s: Seq<char>, i: int) -> Option<(nat, int)> {
    let j = digits_end(s, i);
    if j <= i || (s[i] == '0' && j > i + 1) {
        None
    } else if digits_value(s.subrange(i, j)) > u128::MAX {
        None
    } else {
        Some((digits_value(s.subrange(i, j)), j))
    }
}

/// The characters of a string literal starting at `i` (just after its opening
/// quote), with escapes undone, and the position of its closing quote.
pub open spec fn unescape(s: Seq<char>, i: int) -> Option<(Seq<char>, int)>
    decreases s.len() - i,
{
    if i < 0 || i >= s.len() {
        None
    } else if s[i] == '"' {
        Some((Seq::empty(), i))
    } else if s[i] == '\\' {
        if i + 1 < s.len() && (s[i + 1] == '"' || s[i + 1] == '\\') {
            match unescape(s, i + 2) {
                Some((r, j)) => Some((seq![s[i + 1]] + r, j)),
                None => None,
            }
        } else {
            None
        }
    } else {
        match unescape(s, i + 1) {
            Some((r, j)) => Some((seq![s[i]] + r, j)),
            None => None,
        }
    }
}

/// The kind tag of an integer suffix; `-1` for a word that is none.
pub open spec fn suffix_tag(w: Seq<char>) -> int {
    if w.len() == 0 {
        8
    } else if w.len() == 5 && w[0] == 'u' && w[1] == 's' && w[2] == 'i' && w[3] == 'z' && w[4]
        == 'e' {
        0
    } else if w.len() == 2 && w[1] == '8' {
        if w[0] == 'u' {
            1
        } else if w[0] == 'i' {
            6
        } else {
            -1
        }
    } else if w.len() == 3 && w[1] == '1' && w[2] == '6' {
        if w[0] == 'u' {
            2
        } else if w[0] == 'i' {
            7
        } else {
            -1
        }
    } else if w.len() == 3 && w[0] == 'u' && w[1] == '3' && w[2] == '2' {
        3
    } else if w.len() == 3 && w[1] == '6' && w[2] == '4' {
        if w[0] == 'u' {
            4
        } else if w[0] == 'i' {
            9
        } else {
            -1
        }
    } else if w.len() == 4 && w[1] == '1' && w[2] == '2' && w[3] == '8' {
        if w[0] == 'u' {
            5
        } else if w[0] == 'i' {
            10
        } else {
            -1
        }
    } else {
        -1
    }
}

/// Whether `v` fits the integer kind tagged `t`.
pub open spec fn in_range(t: int, v: int) -> bool {
    if t == 0 {
        0 <= v <= usize::MAX
    } else if t == 1 {
        0 <= v <= u8::MAX
    } else if t == 2 {
        0 <= v <= u16::MAX
    } else if t == 3 {
        0 <= v <= u32::MAX
    } else if t == 4 {
        0 <= v <= u64::MAX
    } else if t == 5 {
        0 <= v <= u128::MAX
    } else if t == 6 {
        i8::MIN <= v <= i8::MAX
    } else if t == 7 {
        i16::MIN <= v <= i16::MAX
    } else if t == 8 {
        i32::MIN <= v <= i32::MAX
    } else if t == 9 {
        i64::MIN <= v <= i64::MAX
    } else if t == 10 {
        i128::MIN <= v <= i128::MAX
    } else {
        false
    }
}

/// An integer literal at `a`: an optional `-`, digits, and a kind suffix.
pub open spec fn int_at(s: Seq<char>, a: int) -> Option<(Term, int)> {
    let neg = s[a] == '-';
    let d = if neg {
        a + 1
    } else {
        a
    };
    if d >= s.len() || !is_digit(s[d]) {
        None
    } else {
        match number_at(s, d) {
            Some((n, j)) => {
                let e = ident_end(s, j);
                let t = suffix_tag(s.subrange(j, e));
                let v = if neg {
                    -(n as int)
                } else {
                    n as int
                };
                if 0 <= t <= 10 && in_range(t, v) {
                    Some((Term::Atom(t, v), e))
                } else {
                    None
                }
            },
            None => None,
        }
    }
}

/// A character literal whose opening quote is just before `b`.
pub open spec fn char_at(s: Seq<char>, b: int) -> Option<(Term, int)> {
    if b < 0 || b >= s.len() {
        None
    } else if s[b] == '\\' {
        if b + 2 < s.len() && (s[b + 1] == '\'' || s[b + 1] == '\\') && s[b + 2] == '\'' {
            Some((Term::Atom(12, s[b + 1] as int), b + 3))
        } else {
            None
        }
    } else if s[b] == '\'' {
        None
    } else if b + 1 < s.len() && s[b + 1] == '\'' {
        Some((Term::Atom(12, s[b] as int), b + 2))
    } else {
        None
    }
}

/// The literal starting at `a`, as the view of its value, and where it ends.
pub open spec fn literal_at(s: Seq<char>, a: int) -> Option<(Term, int)> {
    if a < 0 || a >= s.len() {
        None
    } else if s[a] == '"' {
        match unescape(s, a + 1) {
            Some((r, j)) => Some((text_term(r), j + 1)),
            None => None,
        }
    } else if s[a] == '\'' {
        char_at(s, a + 1)
    } else if s[a] == '-' || is_digit(s[a]) {
        int_at(s, a)
    } else if is_ident_start(s[a]) {
        let e = ident_end(s, a);
        let w = s.subrange(a, e);
        if w == seq!['t', 'r', 'u', 'e'] {
            Some((Term::Atom(11, 1), e))
        } else if w == seq!['f', 'a', 'l', 's', 'e'] {
            Some((Term::Atom(11, 0), e))
        } else {
            None
        }
    } else {
        None
    }
}

/// The key written at position `i`, and where the next one starts.
pub open spec fn key_at(s: Seq<char>, i: int) -> Option<(KeyView, int)> {
    if i < 0 || i >= s.len() {
        None
    } else if s[i] == '.' {
        if i + 1 < s.len() && is_digit(s[i + 1]) {
            match number_at(s, i + 1) {
                Some((n, j)) => if n <= usize::MAX {
                    Some((KeyView::Position(n), j))
                } else {
                    None
                },
                None => None,
            }
        } else if i + 1 < s.len() && is_ident_start(s[i + 1]) {
            let j = ident_end(s, i + 1);
            Some((KeyView::Field(s.subrange(i + 1, j)), j))
        } else {
            None
        }
    } else if s[i] == '[' {
        match literal_at(s, i + 1) {
            Some((t, e)) => if e < s.len() && s[e] == ']' {
                Some((KeyView::Get(t), e + 1))
            } else {
                None
            },
            None => None,
        }
    } else if s[i] == ':' {
        if i + 2 < s.len() && s[i + 1] == ':' && is_ident_start(s[i + 2]) {
            let j = ident_end(s, i + 2);
            Some((KeyView::Variant(s.subrange(i + 2, j)), j))
        } else {
            None
        }
    } else {
        None
    }
}

/// The keys written from position `i` to the end of `s`.
pub open spec fn parse_from(s: Seq<char>, i: int) -> Option<Seq<KeyView>>
    decreases s.len() - i,
{
    if i < 0 || i >= s.len() {
        Some(Seq::empty())
    } else {
        match key_at(s, i) {
            Some((k, j)) => if i < j <= s.len() {
                match parse_from(s, j) {
                    Some(rest) => Some(seq![k] + rest),
                    None => None,
                }
            } else {
                None
            },
            None => None,
        }
    }
}


pub open spec fn is_separator(c: char) -> bool {
    c == '.' || c == '[' || c == ':'
}

proof fn lemma_digit_char(d: int)
    requires
        0 <= d < 10,
    ensures
        is_digit(digit_char(d)),
        digit_value(digit_char(d)) == d,
        digit_char(d) == '0' <==> d == 0,
{
}

proof fn lemma_decimal(n: nat)
    ensures
        decimal(n).len() >= 1,
        forall|j: int| 0 <= j < decimal(n).len() ==> is_digit(#[trigger] decimal(n)[j]),
        decimal(n)[0] == '0' ==> n == 0 && decimal(n).len() == 1,
        digits_value(decimal(n)) == n,
    decreases n,
{
    if n < 10 {
        lemma_digit_char(n as int);
        assert(seq![digit_char(n as int)].drop_last() =~= Seq::<char>::empty());
        assert(digits_value(Seq::<char>::empty()) == 0);
        assert(digits_value(decimal(n)) == digits_value(decimal(n).drop_last()) * 10 + digit_value(
            decimal(n).last(),
        ));
    } else {
        lemma_decimal(n / 10);
        lemma_digit_char((n % 10) as int);
        let d = decimal(n / 10);
        assert(decimal(n) == d.push(digit_char((n % 10) as int)));
        assert(decimal(n).drop_last() =~= d);
        assert(n == (n / 10) * 10 + n % 10) by (nonlinear_arith);
        assert(digits_value(decimal(n)) == digits_value(d) * 10 + digit_value(
            digit_char((n % 10) as int),
        ));
        assert forall|j: int| 0 <= j < decimal(n).len() implies is_digit(#[trigger] decimal(n)[j]) by {
            if j < d.len() {
                assert(decimal(n)[j] == d[j]);
            }
        }
        assert(decimal(n)[0] == d[0]);
    }
}

proof fn lemma_ident_end(s: Seq<char>, a: int, b: int)
    requires
        0 <= a <= b <= s.len(),
        forall|m: int| a <= m < b ==> is_ident_char(s[m]),
        b == s.len() || !is_ident_char(s[b]),
    ensures
        ident_end(s, a) == b,
    decreases b - a,
{
    if a < b {
        lemma_ident_end(s, a + 1, b);
    }
}

proof fn lemma_digits_end(s: Seq<char>, a: int, b: int)
    requires
        0 <= a <= b <= s.len(),
        forall|m: int| a <= m < b ==> is_digit(s[m]),
        b == s.len() || !is_digit(s[b]),
    ensures
        digits_end(s, a) == b,
    decreases b - a,
{
    if a < b {
        lemma_digits_end(s, a + 1, b);
    }
}

pub open spec fn escape_char(c: char) -> Seq<char> {
    if c == '"' || c == '\\' {
        seq!['\\', c]
    } else {
        seq![c]
    }
}

proof fn lemma_escaped_concat(x: Seq<char>, y: Seq<char>)
    ensures
        escaped(x + y) == escaped(x) + escaped(y),
    decreases y.len(),
{
    if y.len() == 0 {
        assert(x + y =~= x);
        assert(escaped(x) + escaped(y) =~= escaped(x));
    } else {
        lemma_escaped_concat(x, y.drop_last());
        assert((x + y).drop_last() =~= x + y.drop_last());
        assert((x + y).last() == y.last());
        assert(escaped(x + y) =~= escaped(x) + escaped(y));
    }
}

proof fn lemma_escaped_first(c: char, rest: Seq<char>)
    ensures
        escaped(seq![c] + rest) == escape_char(c) + escaped(rest),
{
    lemma_escaped_concat(seq![c], rest);
    assert(seq![c].drop_last() =~= Seq::<char>::empty());
    assert(escaped(Seq::<char>::empty()) =~= Seq::<char>::empty());
    assert(escaped(seq![c]) =~= escape_char(c));
}

proof fn lemma_unescape(s: Seq<char>, t: Seq<char>, a: int)
    requires
        0 <= a,
        a + escaped(t).len() < s.len(),
        s.subrange(a, a + escaped(t).len()) == escaped(t),
        s[a + escaped(t).len()] == '"',
    ensures
        unescape(s, a) == Some((t, a + escaped(t).len())),
    decreases t.len(),
{
    if t.len() == 0 {
        assert(escaped(t).len() == 0);
    } else {
        let c = t[0];
        let rest = t.drop_first();
        assert(t =~= seq![c] + rest);
        lemma_escaped_first(c, rest);
        let e = escape_char(c);
        assert(s.subrange(a, a + e.len()) =~= e) by {
            assert forall|m: int| 0 <= m < e.len() implies s[a + m] == e[m] by {
                assert(s.subrange(a, a + escaped(t).len())[m] == escaped(t)[m]);
            }
        }
        assert(s.subrange(a + e.len(), a + e.len() + escaped(rest).len()) =~= escaped(rest)) by {
            assert forall|m: int| 0 <= m < escaped(rest).len() implies s[a + e.len() + m]
                == escaped(rest)[m] by {
                assert(s.subrange(a, a + escaped(t).len())[e.len() + m] == escaped(t)[e.len() + m]);
            }
        }
        lemma_unescape(s, rest, a + e.len());
        if c == '"' || c == '\\' {
            assert(s[a] == '\\' && s[a + 1] == c);
            assert(seq![s[a + 1]] + rest =~= t);
        } else {
            assert(s[a] == c);
            assert(seq![s[a]] + rest =~= t);
        }
    }
}

proof fn lemma_window(s: Seq<char>, a: int, x: Seq<char>)
    requires
        0 <= a,
        a + x.len() <= s.len(),
        s.subrange(a, a + x.len()) == x,
    ensures
        forall|m: int| 0 <= m < x.len() ==> s[a + m] == x[m],
{
    assert forall|m: int| 0 <= m < x.len() implies s[a + m] == x[m] by {
        assert(s.subrange(a, a + x.len())[m] == x[m]);
    }
}

proof fn lemma_suffix(t: int)
    requires
        0 <= t <= 10,
    ensures
        suffix_tag(crate::key_path::suffix_of_tag(t)) == t,
        forall|m: int|
            0 <= m < crate::key_path::suffix_of_tag(t).len() ==> is_ident_char(
                #[trigger] crate::key_path::suffix_of_tag(t)[m],
            ),
        crate::key_path::suffix_of_tag(t).len() > 0 ==> !is_digit(
            crate::key_path::suffix_of_tag(t)[0],
        ),
{
    let w = crate::key_path::suffix_of_tag(t);
    if w.len() > 0 {
        assert(w[0] == 'u' || w[0] == 'i');
    }
}

proof fn lemma_int_at(s: Seq<char>, a: int, n: int, t: int)
    requires
        0 <= t <= 10,
        in_range(t, n),
        0 <= a,
        a + (crate::key_path::int_text(n) + crate::key_path::suffix_of_tag(t)).len() < s.len(),
        s.subrange(
            a,
            a + (crate::key_path::int_text(n) + crate::key_path::suffix_of_tag(t)).len(),
        ) == crate::key_path::int_text(n) + crate::key_path::suffix_of_tag(t),
        s[a + (crate::key_path::int_text(n) + crate::key_path::suffix_of_tag(t)).len()] == ']',
    ensures
        int_at(s, a) == Some(
            (
                Term::Atom(t, n),
                a + (crate::key_path::int_text(n) + crate::key_path::suffix_of_tag(t)).len(),
            ),
        ),
        s[a] == '-' || is_digit(s[a]),
{
    let suf = crate::key_path::suffix_of_tag(t);
    let it = crate::key_path::int_text(n);
    let lt = it + suf;
    let mag: nat = (if n < 0 {
        -n
    } else {
        n
    }) as nat;
    lemma_decimal(mag);
    lemma_suffix(t);
    let dec = decimal(mag);
    lemma_window(s, a, lt);
    let d = if n < 0 {
        a + 1
    } else {
        a
    };
    let j = d + dec.len();
    let e = j + suf.len();
    assert(it =~= if n < 0 {
        seq!['-'] + dec
    } else {
        dec
    });
    assert(e == a + lt.len());
    assert forall|m: int| 0 <= m < dec.len() implies s[d + m] == dec[m] by {
        assert(s[a + (d - a + m)] == lt[d - a + m]);
    }
    assert forall|m: int| 0 <= m < suf.len() implies s[j + m] == suf[m] by {
        assert(s[a + (j - a + m)] == lt[j - a + m]);
    }
    if n < 0 {
        assert(s[a] == lt[0]);
    } else {
        assert(s[a] == dec[0]);
    }
    assert forall|m: int| d <= m < j implies is_digit(s[m]) by {
        assert(s[d + (m - d)] == dec[m - d]);
    }
    if suf.len() > 0 {
        assert(s[j] == suf[0]);
    }
    lemma_digits_end(s, d, j);
    assert(s.subrange(d, j) =~= dec);
    assert forall|m: int| j <= m < e implies is_ident_char(s[m]) by {
        assert(s[j + (m - j)] == suf[m - j]);
    }
    lemma_ident_end(s, j, e);
    assert(s.subrange(j, e) =~= suf);
}

proof fn lemma_literal_at(s: Seq<char>, a: int, v: Value)
    requires
        is_literal(v),
        0 <= a,
        a + crate::key_path::literal_text(v).len() < s.len(),
        s.subrange(a, a + crate::key_path::literal_text(v).len()) == crate::key_path::literal_text(v),
        s[a + crate::key_path::literal_text(v).len()] == ']',
    ensures
        literal_at(s, a) == Some((v@, a + crate::key_path::literal_text(v).len())),
{
    let lt = crate::key_path::literal_text(v);
    lemma_window(s, a, lt);
    match v {
        Value::Usize(n) => lemma_int_at(s, a, n as int, 0),
        Value::U8(n) => lemma_int_at(s, a, n as int, 1),
        Value::U16(n) => lemma_int_at(s, a, n as int, 2),
        Value::U32(n) => lemma_int_at(s, a, n as int, 3),
        Value::U64(n) => lemma_int_at(s, a, n as int, 4),
        Value::U128(n) => lemma_int_at(s, a, n as int, 5),
        Value::I8(n) => lemma_int_at(s, a, n as int, 6),
        Value::I16(n) => lemma_int_at(s, a, n as int, 7),
        Value::I32(n) => lemma_int_at(s, a, n as int, 8),
        Value::I64(n) => lemma_int_at(s, a, n as int, 9),
        Value::I128(n) => lemma_int_at(s, a, n as int, 10),
        Value::Bool(b) => {
            assert(s[a] == lt[0]);
            let e = a + lt.len();
            assert forall|m: int| a <= m < e implies is_ident_char(s[m]) by {
                assert(s[a + (m - a)] == lt[m - a]);
            }
            lemma_ident_end(s, a, e);
            assert(s.subrange(a, e) =~= lt);
        },
        Value::Char(c) => {
            assert(s[a] == lt[0]);
            if c == '\'' || c == '\\' {
                assert(s[a + 1] == lt[1] && s[a + 2] == lt[2] && s[a + 3] == lt[3]);
            } else {
                assert(s[a + 1] == lt[1] && s[a + 2] == lt[2]);
            }
        },
        Value::Str(t) => {
            let e = escaped(t@);
            assert(lt =~= seq!['"'] + e + seq!['"']);
            assert(s[a] == lt[0]);
            assert(s[a + 1 + e.len()] == lt[1 + e.len() as int]);
            assert(s.subrange(a + 1, a + 1 + e.len()) =~= e) by {
                assert forall|m: int| 0 <= m < e.len() implies s.subrange(a + 1, a + 1 + e.len())[m]
                    == e[m] by {
                    assert(s[a + (1 + m)] == lt[1 + m]);
                }
            }
            lemma_unescape(s, t@, a + 1);
        },
        _ => {},
    }
}

proof fn lemma_key_at(s: Seq<char>, a: int, k: Key)
    requires
        grammar_key(k),
        0 <= a,
        a + key_text(k).len() <= s.len(),
        s.subrange(a, a + key_text(k).len()) == key_text(k),
        a + key_text(k).len() == s.len() || is_separator(s[a + key_text(k).len()]),
    ensures
        key_at(s, a) == Some((k@, a + key_text(k).len())),
{
    let kt = key_text(k);
    let b = a + kt.len();
    assert forall|m: int| 0 <= m < kt.len() implies s[a + m] == kt[m] by {
        assert(s.subrange(a, b)[m] == kt[m]);
    }
    assert(s[a] == kt[0]) by {
        assert(s.subrange(a, b)[0] == kt[0]);
    }
    match k {
        Key::Field(NamedOrNumbered::Named(name)) => {
            assert(kt == seq!['.'] + name@);
            assert(s[a] == '.');
            assert forall|m: int| a + 1 <= m < b implies is_ident_char(s[m]) by {
                assert(s[a + (m - a)] == kt[m - a]);
            }
            assert(s[a + 1] == kt[1]);
            lemma_ident_end(s, a + 1, b);
            assert(s.subrange(a + 1, b) =~= name@) by {
                assert forall|m: int| 0 <= m < name@.len() implies s.subrange(a + 1, b)[m]
                    == name@[m] by {
                    assert(s[a + (1 + m)] == kt[1 + m]);
                }
            }
        },
        Key::Field(NamedOrNumbered::Numbered(n)) => {
            lemma_decimal(n as nat);
            let d = decimal(n as nat);
            assert(kt == seq!['.'] + d);
            assert(s[a] == '.');
            assert forall|m: int| a + 1 <= m < b implies is_digit(s[m]) by {
                assert(s[a + (m - a)] == kt[m - a]);
                assert(kt[m - a] == d[m - a - 1]);
            }
            assert(s[a + 1] == kt[1]);
            lemma_digits_end(s, a + 1, b);
            assert(s.subrange(a + 1, b) =~= d) by {
                assert forall|m: int| 0 <= m < d.len() implies s.subrange(a + 1, b)[m] == d[m] by {
                    assert(s[a + (1 + m)] == kt[1 + m]);
                }
            }
        },
        Key::Get(v) => {
            let lt = crate::key_path::literal_text(v);
            assert(kt =~= seq!['['] + lt + seq![']']);
            assert(s[b - 1] == kt[kt.len() - 1]);
            assert(s.subrange(a + 1, a + 1 + lt.len()) =~= lt) by {
                assert forall|m: int| 0 <= m < lt.len() implies s.subrange(a + 1, a + 1 + lt.len())[m]
                    == lt[m] by {
                    assert(s[a + (1 + m)] == kt[1 + m]);
                }
            }
            lemma_literal_at(s, a + 1, v);
        },
        Key::Variant(name) => {
            assert(kt == seq![':', ':'] + name@);
            assert(kt[0] == ':' && kt[1] == ':');
            assert(s[a + 1] == kt[1]);
            assert forall|m: int| a + 2 <= m < b implies is_ident_char(s[m]) by {
                assert(s[a + (m - a)] == kt[m - a]);
            }
            assert(s[a + 2] == kt[2]);
            lemma_ident_end(s, a + 2, b);
            assert(s.subrange(a + 2, b) =~= name@) by {
                assert forall|m: int| 0 <= m < name@.len() implies s.subrange(a + 2, b)[m]
                    == name@[m] by {
                    assert(s[a + (2 + m)] == kt[2 + m]);
                }
            }
        },
    }
}


proof fn lemma_key_text_start(k: Key)
    ensures
        key_text(k).len() >= 1,
        is_separator(key_text(k)[0]),
{
    match k {
        Key::Field(NamedOrNumbered::Numbered(n)) => {
            lemma_decimal(n as nat);
        },
        Key::Get(v) => {
            assert(key_text(k) == seq!['['] + crate::key_path::literal_text(v) + seq![']']);
        },
        _ => {},
    }
}

proof fn lemma_path_text_prefix(p: Seq<Key>, m: int, n: int)
    requires
        0 <= m <= n <= p.len(),
    ensures
        path_text(p, m).len() <= path_text(p, n).len(),
        path_text(p, n).subrange(0, path_text(p, m).len() as int) == path_text(p, m),
    decreases n - m,
{
    if m == n {
        assert(path_text(p, n).subrange(0, path_text(p, m).len() as int) =~= path_text(p, m));
    } else {
        lemma_path_text_prefix(p, m, n - 1);
        let prev = path_text(p, n - 1);
        assert(path_text(p, n) == prev + key_text(p[n - 1]));
        assert(path_text(p, n).subrange(0, path_text(p, m).len() as int) =~= prev.subrange(
            0,
            path_text(p, m).len() as int,
        ));
    }
}

proof fn lemma_parse_suffix(p: Seq<Key>, m: int)
    requires
        grammar_path(p),
        0 <= m <= p.len(),
    ensures
        parse_from(path_text(p, p.len() as int), path_text(p, m).len() as int) == Some(
            keys_view(p).subrange(m, p.len() as int),
        ),
    decreases p.len() - m,
{
    let t = path_text(p, p.len() as int);
    let a = path_text(p, m).len() as int;
    lemma_path_text_prefix(p, m, p.len() as int);
    if m == p.len() {
        assert(keys_view(p).subrange(m, p.len() as int) =~= Seq::<KeyView>::empty());
    } else {
        let k = p[m];
        let kt = key_text(k);
        let b = a + kt.len();
        lemma_key_text_start(k);
        lemma_path_text_prefix(p, m + 1, p.len() as int);
        assert(path_text(p, m + 1) == path_text(p, m) + kt);
        assert(path_text(p, m + 1).len() == b);
        assert(t.subrange(a, b) =~= kt) by {
            assert forall|j: int| 0 <= j < kt.len() implies t.subrange(a, b)[j] == kt[j] by {
                assert(t.subrange(0, b)[a + j] == path_text(p, m + 1)[a + j]);
            }
        }
        if m + 1 < p.len() {
            lemma_key_text_start(p[m + 1]);
            lemma_path_text_prefix(p, m + 2, p.len() as int);
            assert(path_text(p, m + 2) == path_text(p, m + 1) + key_text(p[m + 1]));
            assert(t[b] == key_text(p[m + 1])[0]) by {
                assert(t.subrange(0, path_text(p, m + 2).len() as int)[b] == path_text(p, m + 2)[b]);
            }
        } else {
            assert(b == t.len());
        }
        lemma_key_at(t, a, k);
        lemma_parse_suffix(p, m + 1);
        assert(keys_view(p).subrange(m, p.len() as int) =~= seq![k@] + keys_view(p).subrange(
            m + 1,
            p.len() as int,
        ));
    }
}

/// Path round trip: the text of a path that the grammar can write parses back
/// to the same path.
pub proof fn parse_of_display(p: KeyPath)
    requires
        grammar_path(p.path@),
    ensures
        parse_from(path_text(p.path@, p.path@.len() as int), 0) == Some(p@),
{
    lemma_parse_suffix(p.path@, 0);
    assert(keys_view(p.path@).subrange(0, p.path@.len() as int) =~= p@);
}


fn chars_of(s: &str) -> (r: Vec<char>)
    ensures
        r@ == s@,
{
    let n = s.unicode_len();
    let mut out: Vec<char> = Vec::new();
    let mut i: usize = 0;
    while i < n
        invariant
            i <= n,
            n == s@.len(),
            out@ == s@.subrange(0, i as int),
        decreases n - i,
    {
        out.push(s.get_char(i));
        assert(out@ =~= s@.subrange(0, i + 1));
        i = i + 1;
    }
    assert(out@ =~= s@);
    out
}

fn string_of(cs: &Vec<char>, a: usize, b: usize) -> (r: String)
    requires
        a <= b <= cs.len(),
    ensures
        r@ == cs@.subrange(a as int, b as int),
{
    let mut out = String::new();
    let mut i: usize = a;
    while i < b
        invariant
            a <= i <= b,
            b <= cs.len(),
            out@ == cs@.subrange(a as int, i as int),
        decreases b - i,
    {
        push_char(&mut out, cs[i]);
        assert(out@ =~= cs@.subrange(a as int, i + 1));
        i = i + 1;
    }
    out
}

fn ident_char(c: char) -> (r: bool)
    ensures
        r == is_ident_char(c),
{
    ('a' <= c && c <= 'z') || ('A' <= c && c <= 'Z') || c == '_' || ('0' <= c && c <= '9')
}

fn ident_start(c: char) -> (r: bool)
    ensures
        r == is_ident_start(c),
{
    ('a' <= c && c <= 'z') || ('A' <= c && c <= 'Z') || c == '_'
}

fn digit(c: char) -> (r: bool)
    ensures
        r == is_digit(c),
{
    '0' <= c && c <= '9'
}

fn ident_end_at(cs: &Vec<char>, i: usize) -> (j: usize)
    requires
        i <= cs.len(),
    ensures
        j as int == ident_end(cs@, i as int),
        i <= j <= cs.len(),
{
    let mut j = i;
    while j < cs.len() && ident_char(cs[j])
        invariant
            i <= j <= cs.len(),
            ident_end(cs@, i as int) == ident_end(cs@, j as int),
        decreases cs.len() - j,
    {
        j = j + 1;
    }
    j
}

fn digits_end_at(cs: &Vec<char>, i: usize) -> (j: usize)
    requires
        i <= cs.len(),
    ensures
        j as int == digits_end(cs@, i as int),
        i <= j <= cs.len(),
        forall|m: int| i <= m < j ==> is_digit(cs@[m]),
{
    let mut j = i;
    while j < cs.len() && digit(cs[j])
        invariant
            i <= j <= cs.len(),
            digits_end(cs@, i as int) == digits_end(cs@, j as int),
            forall|m: int| i <= m < j ==> is_digit(cs@[m]),
        decreases cs.len() - j,
    {
        j = j + 1;
    }
    j
}

proof fn lemma_digits_value_grows(s: Seq<char>, i: int, m: int, n: int)
    requires
        0 <= i <= m <= n <= s.len(),
    ensures
        digits_value(s.subrange(i, m)) <= digits_value(s.subrange(i, n)),
    decreases n - m,
{
    if m < n {
        lemma_digits_value_grows(s, i, m, n - 1);
        assert(s.subrange(i, n).drop_last() =~= s.subrange(i, n - 1));
    }
}

fn number_at_exec(cs: &Vec<char>, i: usize) -> (r: Option<(u128, usize)>)
    requires
        i < cs.len(),
    ensures
        r matches Some((n, j)) ==> number_at(cs@, i as int) == Some((n as nat, j as int)),
        r is None ==> number_at(cs@, i as int) is None,
{
    let j = digits_end_at(cs, i);
    if j <= i || (cs[i] == '0' && j > i + 1) {
        return None;
    }
    let mut value: u128 = 0;
    let mut m = i;
    while m < j
        invariant
            i <= m <= j,
            j <= cs.len(),
            j as int == digits_end(cs@, i as int),
            forall|q: int| i <= q < j ==> is_digit(cs@[q]),
            value as int == digits_value(cs@.subrange(i as int, m as int)),
        decreases j - m,
    {
        let c = cs[m];
        let d: u128 = (c as u32 - '0' as u32) as u128;
        proof {
            assert(cs@.subrange(i as int, m + 1).drop_last() =~= cs@.subrange(i as int, m as int));
            assert(cs@.subrange(i as int, m + 1).last() == c);
        }
        let next = match value.checked_mul(10) {
            Some(t) => t.checked_add(d),
            None => None,
        };
        match next {
            Some(x) => {
                value = x;
            },
            None => {
                proof {
                    lemma_digits_value_grows(cs@, i as int, m + 1, j as int);
                }
                return None;
            },
        }
        m = m + 1;
    }
    Some((value, j))
}

fn unescape_at(cs: &Vec<char>, i: usize) -> (r: Option<(String, usize)>)
    requires
        i <= cs.len(),
    ensures
        r matches Some((t, j)) ==> unescape(cs@, i as int) == Some((t@, j as int)) && j < cs.len(),
        r is None ==> unescape(cs@, i as int) is None,
{
    let mut out = String::new();
    let mut k = i;
    while k < cs.len()
        invariant
            i <= k <= cs.len() + 1,
            unescape(cs@, i as int) == match unescape(cs@, k as int) {
                Some((r, j)) => Some((out@ + r, j)),
                None => None,
            },
        decreases cs.len() - k,
    {
        let c = cs[k];
        if c == '"' {
            assert(out@ + Seq::<char>::empty() =~= out@);
            return Some((out, k));
        } else if c == '\\' {
            if k + 1 < cs.len() && (cs[k + 1] == '"' || cs[k + 1] == '\\') {
                let e = cs[k + 1];
                let ghost before = out@;
                push_char(&mut out, e);
                proof {
                    match unescape(cs@, k + 2) {
                        Some((r, j)) => {
                            assert(before + (seq![e] + r) =~= out@ + r);
                        },
                        None => {},
                    }
                }
                k = k + 2;
            } else {
                return None;
            }
        } else {
            let ghost before = out@;
            push_char(&mut out, c);
            proof {
                match unescape(cs@, k + 1) {
                    Some((r, j)) => {
                        assert(before + (seq![c] + r) =~= out@ + r);
                    },
                    None => {},
                }
            }
            k = k + 1;
        }
    }
    None
}

fn suffix_tag_at(cs: &Vec<char>, j: usize, e: usize) -> (t: i8)
    requires
        j <= e <= cs.len(),
    ensures
        t as int == suffix_tag(cs@.subrange(j as int, e as int)),
{
    let ghost w = cs@.subrange(j as int, e as int);
    let n = e - j;
    proof {
        assert(w.len() == n);
        assert(forall|m: int| 0 <= m < n ==> w[m] == cs@[j + m]);
    }
    if n == 0 {
        8
    } else if n == 5 && cs[j] == 'u' && cs[j + 1] == 's' && cs[j + 2] == 'i' && cs[j + 3] == 'z'
        && cs[j + 4] == 'e' {
        0
    } else if n == 2 && cs[j + 1] == '8' {
        if cs[j] == 'u' {
            1
        } else if cs[j] == 'i' {
            6
        } else {
            -1
        }
    } else if n == 3 && cs[j + 1] == '1' && cs[j + 2] == '6' {
        if cs[j] == 'u' {
            2
        } else if cs[j] == 'i' {
            7
        } else {
            -1
        }
    } else if n == 3 && cs[j] == 'u' && cs[j + 1] == '3' && cs[j + 2] == '2' {
        3
    } else if n == 3 && cs[j + 1] == '6' && cs[j + 2] == '4' {
        if cs[j] == 'u' {
            4
        } else if cs[j] == 'i' {
            9
        } else {
            -1
        }
    } else if n == 4 && cs[j + 1] == '1' && cs[j + 2] == '2' && cs[j + 3] == '8' {
        if cs[j] == 'u' {
            5
        } else if cs[j] == 'i' {
            10
        } else {
            -1
        }
    } else {
        -1
    }
}

/// The integer of kind `t` whose magnitude is `n`, negated where `neg`.
fn make_int(t: i8, neg: bool, n: u128) -> (r: Option<Value>)
    requires
        0 <= t <= 10,
    ensures
        ({
            let v = if neg {
                -(n as int)
            } else {
                n as int
            };
            &&& r matches Some(x) ==> in_range(t as int, v) && x@ == Term::Atom(t as int, v)
            &&& r is None ==> !in_range(t as int, v)
        }),
{
    if t <= 5 {
        if neg && n != 0 {
            return None;
        }
        if t == 0 {
            if n <= usize::MAX as u128 {
                Some(Value::Usize(n as usize))
            } else {
                None
            }
        } else if t == 1 {
            if n <= u8::MAX as u128 {
                Some(Value::U8(n as u8))
            } else {
                None
            }
        } else if t == 2 {
            if n <= u16::MAX as u128 {
                Some(Value::U16(n as u16))
            } else {
                None
            }
        } else if t == 3 {
            if n <= u32::MAX as u128 {
                Some(Value::U32(n as u32))
            } else {
                None
            }
        } else if t == 4 {
            if n <= u64::MAX as u128 {
                Some(Value::U64(n as u64))
            } else {
                None
            }
        } else {
            Some(Value::U128(n))
        }
    } else {
        let limit: u128 = 0x8000_0000_0000_0000_0000_0000_0000_0000;
        if n > limit || (!neg && n == limit) {
            return None;
        }
        let v: i128 = if neg {
            if n == limit {
                i128::MIN
            } else {
                -(n as i128)
            }
        } else {
            n as i128
        };
        if t == 6 {
            if i8::MIN as i128 <= v && v <= i8::MAX as i128 {
                Some(Value::I8(v as i8))
            } else {
                None
            }
        } else if t == 7 {
            if i16::MIN as i128 <= v && v <= i16::MAX as i128 {
                Some(Value::I16(v as i16))
            } else {
                None
            }
        } else if t == 8 {
            if i32::MIN as i128 <= v && v <= i32::MAX as i128 {
                Some(Value::I32(v as i32))
            } else {
                None
            }
        } else if t == 9 {
            if i64::MIN as i128 <= v && v <= i64::MAX as i128 {
                Some(Value::I64(v as i64))
            } else {
                None
            }
        } else {
            Some(Value::I128(v))
        }
    }
}

fn int_at_exec(cs: &Vec<char>, a: usize) -> (r: Option<(Value, usize)>)
    requires
        a < cs.len(),
    ensures
        r matches Some((v, e)) ==> int_at(cs@, a as int) == Some((v@, e as int)) && e <= cs.len(),
        r is None ==> int_at(cs@, a as int) is None,
{
    let neg = cs[a] == '-';
    let d = if neg {
        a + 1
    } else {
        a
    };
    if d >= cs.len() || !digit(cs[d]) {
        return None;
    }
    match number_at_exec(cs, d) {
        Some((n, j)) => {
            proof {
                assert(j <= cs.len()) by {
                    assert(number_at(cs@, d as int) == Some((n as nat, j as int)));
                    lemma_digits_end_range(cs@, d as int);
                }
            }
            let e = ident_end_at(cs, j);
            let t = suffix_tag_at(cs, j, e);
            if t < 0 || t > 10 {
                return None;
            }
            match make_int(t, neg, n) {
                Some(v) => Some((v, e)),
                None => None,
            }
        },
        None => None,
    }
}

proof fn lemma_digits_end_range(s: Seq<char>, i: int)
    requires
        0 <= i <= s.len(),
    ensures
        i <= digits_end(s, i) <= s.len(),
    decreases s.len() - i,
{
    if i < s.len() && is_digit(s[i]) {
        lemma_digits_end_range(s, i + 1);
    }
}

proof fn lemma_char_view(x: char)
    ensures
        Value::Char(x)@ == Term::Atom(12, x as int),
{
}

fn literal_at_exec(cs: &Vec<char>, a: usize) -> (r: Option<(Value, usize)>)
    ensures
        r matches Some((v, e)) ==> literal_at(cs@, a as int) == Some((v@, e as int)) && e <= cs.len(),
        r is None ==> literal_at(cs@, a as int) is None,
{
    let n = cs.len();
    if a >= n {
        return None;
    }
    let c = cs[a];
    if c == '"' {
        match unescape_at(cs, a + 1) {
            Some((t, j)) => Some((Value::Str(t), j + 1)),
            None => None,
        }
    } else if c == '\'' {
        let b = a + 1;
        assert(literal_at(cs@, a as int) == char_at(cs@, b as int));
        if b >= n {
            None
        } else if cs[b] == '\\' {
            if b + 1 < n && b + 2 < n && (cs[b + 1] == '\'' || cs[b + 1] == '\\') && cs[b + 2] == '\'' {
                let x = cs[b + 1];
                proof {
                    lemma_char_view(x);
                }
                Some((Value::Char(x), b + 3))
            } else {
                None
            }
        } else if cs[b] == '\'' {
            None
        } else if b + 1 < n && cs[b + 1] == '\'' {
            let x = cs[b];
            proof {
                lemma_char_view(x);
            }
            Some((Value::Char(x), b + 2))
        } else {
            None
        }
    } else if c == '-' || digit(c) {
        match int_at_exec(cs, a) {
            Some((v, e)) => Some((v, e)),
            None => None,
        }
    } else if ident_start(c) {
        let e = ident_end_at(cs, a);
        let ghost w = cs@.subrange(a as int, e as int);
        proof {
            lemma_ident_end_range(cs@, a as int);
            assert(w.len() == e - a);
            assert(forall|k: int| 0 <= k < w.len() ==> w[k] == cs@[a + k]);
        }
        if e - a == 4 && cs[a] == 't' && cs[a + 1] == 'r' && cs[a + 2] == 'u' && cs[a + 3] == 'e' {
            assert(w =~= seq!['t', 'r', 'u', 'e']);
            assert(literal_at(cs@, a as int) == Some((Term::Atom(11, 1), e as int)));
            assert(Value::Bool(true)@ == Term::Atom(11, 1));
            Some((Value::Bool(true), e))
        } else if e - a == 5 && cs[a] == 'f' && cs[a + 1] == 'a' && cs[a + 2] == 'l' && cs[a + 3]
            == 's' && cs[a + 4] == 'e' {
            assert(w =~= seq!['f', 'a', 'l', 's', 'e']);
            assert(w.len() != 4);
            assert(literal_at(cs@, a as int) == Some((Term::Atom(11, 0), e as int)));
            assert(Value::Bool(false)@ == Term::Atom(11, 0));
            Some((Value::Bool(false), e))
        } else {
            proof {
                if w == seq!['t', 'r', 'u', 'e'] {
                    assert(w[0] == 't' && w[1] == 'r' && w[2] == 'u' && w[3] == 'e');
                    assert(cs@[a + 1] == w[1] && cs@[a + 2] == w[2] && cs@[a + 3] == w[3]);
                }
                if w == seq!['f', 'a', 'l', 's', 'e'] {
                    assert(w[0] == 'f' && w[1] == 'a' && w[2] == 'l' && w[3] == 's' && w[4] == 'e');
                    assert(cs@[a + 1] == w[1] && cs@[a + 2] == w[2] && cs@[a + 3] == w[3] && cs@[a
                        + 4] == w[4]);
                }
            }
            None
        }
    } else {
        None
    }
}

proof fn lemma_ident_end_range(s: Seq<char>, i: int)
    requires
        0 <= i <= s.len(),
    ensures
        i <= ident_end(s, i) <= s.len(),
    decreases s.len() - i,
{
    if i < s.len() && is_ident_char(s[i]) {
        lemma_ident_end_range(s, i + 1);
    }
}

fn key_at_exec(cs: &Vec<char>, i: usize) -> (r: Option<(Key, usize)>)
    requires
        i < cs.len(),
    ensures
        r matches Some((k, j)) ==> key_at(cs@, i as int) == Some((k@, j as int)),
        r is None ==> key_at(cs@, i as int) is None,
{
    let c = cs[i];
    let n = cs.len();
    if c == '.' {
        if i + 1 < n && digit(cs[i + 1]) {
            match number_at_exec(cs, i + 1) {
                Some((v, j)) => if v <= usize::MAX as u128 {
                    Some((Key::Field(NamedOrNumbered::Numbered(v as usize)), j))
                } else {
                    None
                },
                None => None,
            }
        } else if i + 1 < n && ident_start(cs[i + 1]) {
            let j = ident_end_at(cs, i + 1);
            Some((Key::Field(NamedOrNumbered::Named(string_of(cs, i + 1, j))), j))
        } else {
            None
        }
    } else if c == '[' {
        match literal_at_exec(cs, i + 1) {
            Some((v, e)) => if e < n && cs[e] == ']' {
                Some((Key::Get(v), e + 1))
            } else {
                None
            },
            None => None,
        }
    } else if c == ':' {
        if i + 1 < n && cs[i + 1] == ':' && i + 2 < n && ident_start(cs[i + 2]) {
            let j = ident_end_at(cs, i + 2);
            Some((Key::Variant(string_of(cs, i + 2, j)), j))
        } else {
            None
        }
    } else {
        None
    }
}

impl KeyPath {
    /// Reads a path from its text form, e.g. `.a.0.b.c[1]["foo"]::D.e[3]`;
    /// `None` where the text does not follow the grammar. The result is
    /// exactly `parse_from(text@, 0)`, so the text of every path the grammar
    /// can write reads back as that path (`parse_of_display`).
    pub fn parse(text: &str) -> (r: Option<KeyPath>)
        ensures
            r matches Some(p) ==> parse_from(text@, 0) == Some(p@),
            r is None ==> parse_from(text@, 0) is None,
    {
        let cs = chars_of(text);
        let mut p = KeyPath::new();
        let mut i: usize = 0;
        while i < cs.len()
            invariant
                i <= cs.len(),
                cs@ == text@,
                parse_from(cs@, 0) == match parse_from(cs@, i as int) {
                    Some(rest) => Some(p@ + rest),
                    None => None,
                },
            decreases cs.len() - i,
        {
            match key_at_exec(&cs, i) {
                Some((k, j)) => {
                    if j <= i || j > cs.len() {
                        return None;
                    }
                    let ghost before = p@;
                    let ghost kv = k@;
                    p.push(k);
                    proof {
                        match parse_from(cs@, j as int) {
                            Some(rest) => {
                                assert(before + (seq![kv] + rest) =~= p@ + rest);
                            },
                            None => {},
                        }
                    }
                    i = j;
                },
                None => {
                    return None;
                },
            }
        }
        assert(p@ + Seq::<KeyView>::empty() =~= p@);
        Some(p)
    }
}

} // verus!
